//! The hybrid page pool: where cached rows live, which pages may be reused.
//!
//! Pages are addressed through block tables: entry `i` of a table is the
//! physical page of native block `i` of a sequence. The pool plans row copies
//! between token rows, pages and the contiguous buffer of sparse attention,
//! and keeps for each page whether its residual may be handed to another
//! sequence with the same prefix.

use crate::checkpoint::DType;
use crate::ds_v4::decode_buffers::Fill;
use crate::ds_v4::hybrid_kv::{V4LayerCacheSpec, V4_NATIVE_BLOCK_SIZE};
use crate::math::sum;
use vstd::arithmetic::div_mod::*;
use vstd::arithmetic::mul::*;
use vstd::prelude::*;

verus! {

/// One page tensor: `pages` pages of `rows` rows.
#[derive(Debug, Clone, Copy, PartialEq, Eq, Structural)]
pub struct PageShape {
    pub pages: usize,
    pub rows: usize,
    pub width: usize,
    pub dtype: DType,
    /// What all elements of new pages are.
    pub fill: Fill,
}

impl PageShape {
    /// Bytes of the tensor.
    pub open spec fn bytes(self) -> nat {
        self.pages as nat * (self.rows as nat * (self.width as nat * (if self.dtype == DType::F32 { 4nat } else { 2 })))
    }
}

/// The page tensors of a layer.
#[derive(Debug, Clone, Copy, PartialEq, Eq, Structural)]
pub enum PageTensor {
    Swa,
    Compressed,
    Residual,
    IndexerCompressed,
    IndexerResidual,
}

/// Page tensors of one layer.
pub struct V4LayerPages {
    /// Token rows.
    pub swa: PageShape,
    /// Compressed rows.
    pub compressed: Option<PageShape>,
    /// Packed residual rows of the compressor.
    pub residual: Option<PageShape>,
    /// Compressed rows of the indexer.
    pub indexer_compressed: Option<PageShape>,
    /// Packed residual rows of the indexer.
    pub indexer_residual: Option<PageShape>,
    pub compress_ratio: usize,
    pub head_dim: usize,
    pub residual_window: usize,
    pub index_head_dim: Option<usize>,
}

impl V4LayerPages {
    /// Whether the page tensors can be addressed by element offsets.
    pub open spec fn wf(&self) -> bool {
        &&& V4_NATIVE_BLOCK_SIZE * self.head_dim <= usize::MAX
        &&& self.compressed is Some ==> self.compress_ratio > 0
    }

    /// Compressed rows of one page.
    pub open spec fn rows_per_page(&self) -> int {
        V4_NATIVE_BLOCK_SIZE as int / (if self.compress_ratio == 0 { 1 } else { self.compress_ratio as int })
    }

    /// The tensors of the layer, in the order in which a page is cleared.
    pub open spec fn tensors(&self) -> Seq<PageTensor> {
        seq![PageTensor::Swa]
            + (if self.compressed is Some { seq![PageTensor::Compressed] } else { seq![] })
            + (if self.residual is Some { seq![PageTensor::Residual] } else { seq![] })
            + (if self.indexer_compressed is Some { seq![PageTensor::IndexerCompressed] } else { seq![] })
            + (if self.indexer_residual is Some { seq![PageTensor::IndexerResidual] } else { seq![] })
    }

    /// Whether every page tensor has `n` pages.
    pub open spec fn has_pages(&self, n: usize) -> bool {
        &&& self.swa.pages == n
        &&& self.compressed matches Some(p) ==> p.pages == n
        &&& self.residual matches Some(p) ==> p.pages == n
        &&& self.indexer_compressed matches Some(p) ==> p.pages == n
        &&& self.indexer_residual matches Some(p) ==> p.pages == n
    }

    /// Whether all elements of new pages are 0.
    pub open spec fn starts_zero(&self) -> bool {
        &&& self.swa.fill is Zero
        &&& self.compressed matches Some(p) ==> p.fill is Zero
        &&& self.residual matches Some(p) ==> p.fill is Zero
        &&& self.indexer_compressed matches Some(p) ==> p.fill is Zero
        &&& self.indexer_residual matches Some(p) ==> p.fill is Zero
    }

    /// Bytes of all page tensors.
    pub open spec fn bytes(&self) -> nat {
        self.swa.bytes()
            + (match self.compressed { Some(p) => p.bytes(), None => 0 })
            + (match self.residual { Some(p) => p.bytes(), None => 0 })
            + (match self.indexer_compressed { Some(p) => p.bytes(), None => 0 })
            + (match self.indexer_residual { Some(p) => p.bytes(), None => 0 })
    }

    /// Whether these are the page tensors that `spec` asks for.
    pub open spec fn of_spec(&self, spec: V4LayerCacheSpec, num_pages: usize) -> bool {
        &&& self.compress_ratio == spec.compress_ratio
        &&& self.head_dim == spec.head_dim
        &&& self.residual_window == spec.residual_window
        &&& self.index_head_dim == spec.index_head_dim
        &&& self.swa == (PageShape { pages: num_pages, rows: V4_NATIVE_BLOCK_SIZE, width: spec.head_dim, dtype: DType::BF16, fill: Fill::Zero })
        &&& self.compressed == (if spec.compress_ratio > 0 {
            Some(PageShape {
                pages: num_pages, rows: spec.compressed_rows() as usize, width: spec.head_dim, dtype: DType::BF16, fill: Fill::Zero,
            })
        } else { None })
        &&& self.residual == (if spec.residual_window > 0 {
            Some(PageShape {
                pages: num_pages, rows: spec.residual_window, width: spec.packed_width() as usize, dtype: DType::F32, fill: Fill::Zero,
            })
        } else { None })
        &&& self.indexer_compressed == (match spec.index_head_dim {
            Some(d) => Some(PageShape {
                pages: num_pages, rows: spec.compressed_rows() as usize, width: d, dtype: DType::BF16, fill: Fill::Zero,
            }),
            None => None,
        })
        &&& self.indexer_residual == (match spec.index_head_dim {
            Some(d) => Some(PageShape {
                pages: num_pages, rows: spec.residual_window, width: (4 * d) as usize, dtype: DType::F32, fill: Fill::Zero,
            }),
            None => None,
        })
    }

    /// The page tensors that `spec` asks for, all zero.
    pub fn new(spec: &V4LayerCacheSpec, num_pages: usize) -> (r: Self)
        requires
            spec.packed_width() <= usize::MAX,
            4 * spec.index_width() <= usize::MAX,
        ensures
            r.of_spec(*spec, num_pages),
            r.has_pages(num_pages),
            r.starts_zero(),
    {
        let compressed = if spec.compress_ratio > 0 {
            let rows: usize = spec.compressed_entries_per_native_block();
            Some(PageShape { pages: num_pages, rows, width: spec.head_dim, dtype: DType::BF16, fill: Fill::Zero })
        } else {
            None
        };
        let residual = if spec.residual_window > 0 {
            let width: usize = spec.packed_residual_dim();
            Some(PageShape { pages: num_pages, rows: spec.residual_window, width, dtype: DType::F32, fill: Fill::Zero })
        } else {
            None
        };
        let (indexer_compressed, indexer_residual) = match spec.index_head_dim {
            Some(idx_dim) => {
                let rows: usize = spec.compressed_entries_per_native_block();
                let packed: usize = 2 * 2 * idx_dim;
                (
                    Some(PageShape { pages: num_pages, rows, width: idx_dim, dtype: DType::BF16, fill: Fill::Zero }),
                    Some(PageShape { pages: num_pages, rows: spec.residual_window, width: packed, dtype: DType::F32, fill: Fill::Zero }),
                )
            },
            None => (None, None),
        };
        V4LayerPages {
            swa: PageShape { pages: num_pages, rows: V4_NATIVE_BLOCK_SIZE, width: spec.head_dim, dtype: DType::BF16, fill: Fill::Zero },
            compressed,
            residual,
            indexer_compressed,
            indexer_residual,
            compress_ratio: spec.compress_ratio,
            head_dim: spec.head_dim,
            residual_window: spec.residual_window,
            index_head_dim: spec.index_head_dim,
        }
    }

    /// The tensors in which page `page` is to be set to 0: all of them, or
    /// none for a page that does not exist.
    pub fn zero_page(&self, page: usize) -> (r: Vec<PageTensor>)
        ensures
            page >= self.swa.pages ==> r@ == Seq::<PageTensor>::empty(),
            page < self.swa.pages ==> r@ == self.tensors(),
    {
        let mut cleared = Vec::new();
        if page >= self.swa.pages {
            return cleared;
        }
        cleared.push(PageTensor::Swa);
        if self.compressed.is_some() {
            cleared.push(PageTensor::Compressed);
        }
        if self.residual.is_some() {
            cleared.push(PageTensor::Residual);
        }
        if self.indexer_compressed.is_some() {
            cleared.push(PageTensor::IndexerCompressed);
        }
        if self.indexer_residual.is_some() {
            cleared.push(PageTensor::IndexerResidual);
        }
        assert(cleared@ =~= self.tensors());
        cleared
    }
}

/// A copy of consecutive source rows into consecutive rows of one page.
#[derive(Debug, Clone, Copy, PartialEq, Eq, Structural)]
pub struct PageWrite {
    /// First source row.
    pub src: usize,
    pub rows: usize,
    pub page: usize,
    /// First row inside the page.
    pub row: usize,
    /// Offset of that row in elements.
    pub elem_offset: usize,
}

/// A copy of consecutive rows of one page into the sparse buffer.
#[derive(Debug, Clone, Copy, PartialEq, Eq, Structural)]
pub struct PageGather {
    /// Absolute index of the first row: a token position, or a compressed row.
    pub abs: usize,
    pub rows: usize,
    pub page: usize,
    /// First row inside the page.
    pub row: usize,
    /// First slot of the buffer.
    pub slot: usize,
    /// Offset of that slot in elements.
    pub elem_offset: usize,
}

/// The copies that fill the sparse buffer.
pub struct GatherPlan {
    /// Token rows, into the ring of the sliding window.
    pub window: Vec<PageGather>,
    /// Compressed rows, behind the ring.
    pub compressed: Vec<PageGather>,
}

/// A copy between a residual page and the compressor state: the first `rows`
/// rows, `width` elements for each of the two halves.
#[derive(Debug, Clone, Copy, PartialEq, Eq, Structural)]
pub struct ResidualCopy {
    pub page: usize,
    pub rows: usize,
    pub width: usize,
}

#[derive(Debug, Clone, Copy, PartialEq, Eq, Structural)]
pub enum PoolError {
    /// A pool needs at least one page.
    NoPages,
    /// Rows and positions differ in number.
    LengthMismatch { kv: usize, pos: usize },
    /// The score half of a state has too few rows.
    ScoreRows { have: usize, want: usize },
}

/// The physical page of block `block`, where the table has one and the pool
/// knows it.
pub open spec fn page_of(table: Seq<u32>, num_pages: int, block: int) -> Option<int> {
    if 0 <= block < table.len() && table[block] < num_pages {
        Some(table[block] as int)
    } else {
        None
    }
}

/// Page and row of the `index`-th row of a sequence, `rows_per_page` to a page.
pub open spec fn home_of(table: Seq<u32>, num_pages: int, rows_per_page: int, index: int) -> Option<(int, int)> {
    match page_of(table, num_pages, index / rows_per_page) {
        Some(page) if index >= 0 => Some((page, index % rows_per_page)),
        _ => None,
    }
}

/// Whether `copies` put each source row `i` that has a home (the home of
/// absolute index `index[i]`) there, in order, each source row once, nothing
/// else, in runs that cannot be lengthened.
pub open spec fn writes_rows(
    copies: Seq<PageWrite>,
    index: Seq<int>,
    table: Seq<u32>,
    num_pages: int,
    rows_per_page: int,
    width: int,
) -> bool {
    writes_upto(copies, index, index.len() as int, table, num_pages, rows_per_page, width)
}

/// As [`writes_rows`], for the first `n` source rows.
pub open spec fn writes_upto(
    copies: Seq<PageWrite>,
    index: Seq<int>,
    n: int,
    table: Seq<u32>,
    num_pages: int,
    rows_per_page: int,
    width: int,
) -> bool {
    &&& forall|i: int| 0 <= i < copies.len() ==> {
        let c = #[trigger] copies[i];
        &&& c.rows > 0
        &&& c.src + c.rows <= n
        &&& c.elem_offset == c.row * width
        &&& forall|k: int| c.src <= k < c.src + c.rows ==>
            #[trigger] home_of(table, num_pages, rows_per_page, index[k]) == Some((c.page as int, c.row + k - c.src))
        &&& c.src + c.rows < index.len() ==> index[c.src + c.rows] != index[c.src + c.rows - 1] + 1
            || index[c.src + c.rows] % rows_per_page == 0
    }
    &&& forall|i: int, j: int| 0 <= i < j < copies.len() ==>
        (#[trigger] copies[i]).src + copies[i].rows <= (#[trigger] copies[j]).src
    &&& forall|k: int| 0 <= k < n && (#[trigger] home_of(table, num_pages, rows_per_page, index[k])) is Some
        ==> exists|i: int| 0 <= i < copies.len() && (#[trigger] copies[i]).src <= k < copies[i].src + copies[i].rows
}

/// The slot of the sparse buffer that holds absolute index `abs`.
pub open spec fn slot_of(ring: bool, sliding_window: int, abs: int) -> int {
    if ring { abs % sliding_window } else { sliding_window + abs }
}

/// Whether `copies` bring each absolute index of `lo..hi` that has a home
/// from there to its slot, in order, each once, nothing else.
pub open spec fn gathers_rows(
    copies: Seq<PageGather>,
    lo: int,
    hi: int,
    table: Seq<u32>,
    num_pages: int,
    rows_per_page: int,
    width: int,
    ring: bool,
    sliding_window: int,
) -> bool {
    &&& forall|i: int| 0 <= i < copies.len() ==> {
        let c = #[trigger] copies[i];
        &&& c.rows > 0
        &&& lo <= c.abs && c.abs + c.rows <= hi
        &&& c.elem_offset == c.slot * width
        &&& forall|k: int| c.abs <= k < c.abs + c.rows ==>
            #[trigger] home_of(table, num_pages, rows_per_page, k) == Some((c.page as int, c.row + k - c.abs))
        &&& forall|k: int| c.abs <= k < c.abs + c.rows ==>
            #[trigger] slot_of(ring, sliding_window, k) == c.slot + k - c.abs
    }
    &&& forall|i: int, j: int| 0 <= i < j < copies.len() ==>
        (#[trigger] copies[i]).abs + copies[i].rows <= (#[trigger] copies[j]).abs
    &&& forall|k: int| lo <= k < hi && (#[trigger] home_of(table, num_pages, rows_per_page, k)) is Some
        ==> exists|i: int| 0 <= i < copies.len() && (#[trigger] copies[i]).abs <= k < copies[i].abs + copies[i].rows
}

/// Inside a page, consecutive indices have consecutive rows.
proof fn lemma_same_page(index: int, take: int, per: int)
    requires
        per > 0,
        index >= 0,
        0 <= take,
        index % per + take <= per,
    ensures
        forall|k: int| index <= k < index + take ==> #[trigger] (k / per) == index / per,
        forall|k: int| index <= k < index + take ==> #[trigger] (k % per) == index % per + (k - index),
{
    assert forall|k: int| index <= k < index + take implies #[trigger] (k / per) == index / per && k % per == index % per + (k - index) by {
        lemma_fundamental_div_mod(index, per);
        lemma_mul_is_commutative(per, index / per);
        lemma_fundamental_div_mod_converse(k, per, index / per, index % per + (k - index));
    }
    assert forall|k: int| index <= k < index + take implies #[trigger] (k % per) == index % per + (k - index) by {
        assert(k / per == index / per);
    }
}

/// Pages shared by all sequences through their block tables.
pub struct V4HybridPagePool {
    pub native_block_size: usize,
    pub num_pages: usize,
    pub layers: Vec<V4LayerPages>,
    /// For each page, whether its residual was saved at a block boundary.
    pub residual_frozen: Vec<bool>,
}

impl V4HybridPagePool {
    pub open spec fn wf(&self) -> bool {
        &&& self.native_block_size == V4_NATIVE_BLOCK_SIZE
        &&& self.num_pages > 0
        &&& self.residual_frozen@.len() == self.num_pages
        &&& forall|i: int| 0 <= i < self.layers@.len() ==> (#[trigger] self.layers@[i]).wf()
            && self.layers@[i].has_pages(self.num_pages)
    }

    /// A pool of `num_pages` pages for each layer, all zero.
    pub fn new(specs: &[V4LayerCacheSpec], num_pages: usize) -> (r: Result<Self, PoolError>)
        requires
            forall|i: int| 0 <= i < specs@.len() ==> {
                let s = #[trigger] specs@[i];
                &&& s.packed_width() <= usize::MAX
                &&& 4 * s.index_width() <= usize::MAX
                &&& V4_NATIVE_BLOCK_SIZE * s.head_dim <= usize::MAX
            },
        ensures
            num_pages == 0 ==> r == Err::<Self, PoolError>(PoolError::NoPages),
            num_pages > 0 ==> (r matches Ok(pool) && {
                &&& pool.wf()
                &&& pool.num_pages == num_pages
                &&& pool.layers@.len() == specs@.len()
                &&& forall|i: int| 0 <= i < specs@.len() ==> (#[trigger] pool.layers@[i]).of_spec(specs@[i], num_pages)
                    && pool.layers@[i].starts_zero()
                &&& forall|p: int| 0 <= p < num_pages ==> !(#[trigger] pool.residual_frozen@[p])
            }),
    {
        if num_pages == 0 {
            return Err(PoolError::NoPages);
        }
        let mut layers: Vec<V4LayerPages> = Vec::new();
        let mut i: usize = 0;
        while i < specs.len()
            invariant
                i <= specs@.len(),
                layers@.len() == i,
                forall|i: int| 0 <= i < specs@.len() ==> {
                    let s = #[trigger] specs@[i];
                    &&& s.packed_width() <= usize::MAX
                    &&& 4 * s.index_width() <= usize::MAX
                    &&& V4_NATIVE_BLOCK_SIZE * s.head_dim <= usize::MAX
                    },
                forall|j: int| 0 <= j < i ==> (#[trigger] layers@[j]).of_spec(specs@[j], num_pages) && layers@[j].wf()
                    && layers@[j].has_pages(num_pages) && layers@[j].starts_zero(),
            decreases specs@.len() - i,
        {
            layers.push(V4LayerPages::new(&specs[i], num_pages));
            i = i + 1;
        }
        let mut residual_frozen: Vec<bool> = Vec::new();
        let mut p: usize = 0;
        while p < num_pages
            invariant
                p <= num_pages,
                residual_frozen@.len() == p,
                forall|j: int| 0 <= j < p ==> !(#[trigger] residual_frozen@[j]),
            decreases num_pages - p,
        {
            residual_frozen.push(false);
            p = p + 1;
        }
        Ok(V4HybridPagePool { native_block_size: V4_NATIVE_BLOCK_SIZE, num_pages, layers, residual_frozen })
    }

    /// The page that the last of `native_len` tokens lies in.
    pub open spec fn last_page(&self, native_len: int, table: Seq<u32>) -> Option<int> {
        if native_len > 0 {
            page_of(table, self.num_pages as int, (native_len - 1) / (V4_NATIVE_BLOCK_SIZE as int))
        } else {
            None
        }
    }

    /// Whether `native_len` is a block boundary whose page has a frozen residual.
    pub open spec fn frozen_at(&self, native_len: int, table: Seq<u32>) -> bool {
        &&& native_len > 0
        &&& native_len % (V4_NATIVE_BLOCK_SIZE as int) == 0
        &&& self.last_page(native_len, table) matches Some(page) && self.residual_frozen@[page]
    }

    /// Everything but the frozen flags is as in `other`.
    pub open spec fn same_pages(&self, other: &Self) -> bool {
        &&& self.native_block_size == other.native_block_size
        &&& self.num_pages == other.num_pages
        &&& self.layers == other.layers
    }

    fn find_last_page(&self, native_len: usize, block_table: &[u32]) -> (r: Option<usize>)
        requires
            self.wf(),
        ensures
            match r {
                Some(page) => self.last_page(native_len as int, block_table@) == Some(page as int) && page < self.num_pages,
                None => self.last_page(native_len as int, block_table@) is None,
            },
    {
        if native_len == 0 {
            return None;
        }
        let page_idx: usize = (native_len - 1) / V4_NATIVE_BLOCK_SIZE;
        if page_idx >= block_table.len() {
            return None;
        }
        let page: usize = block_table[page_idx] as usize;
        if page >= self.num_pages {
            return None;
        }
        Some(page)
    }

    /// True iff `native_len` is a block boundary and the page that covers it
    /// has a frozen residual.
    pub fn residual_frozen_at(&self, native_len: usize, block_table: &[u32]) -> (r: bool)
        requires
            self.wf(),
        ensures
            r == self.frozen_at(native_len as int, block_table@),
    {
        if native_len == 0 || native_len % V4_NATIVE_BLOCK_SIZE != 0 {
            return false;
        }
        match self.find_last_page(native_len, block_table) {
            Some(page) => self.residual_frozen[page],
            None => false,
        }
    }

    /// Freezes the residual of the page that ends at `native_len`, which has
    /// an effect at block boundaries only.
    pub fn mark_residual_frozen(&mut self, native_len: usize, block_table: &[u32])
        requires
            old(self).wf(),
        ensures
            final(self).wf(),
            final(self).same_pages(old(self)),
            final(self).residual_frozen@ == (match old(self).last_page(native_len as int, block_table@) {
                Some(page) if native_len as int % V4_NATIVE_BLOCK_SIZE as int == 0 =>
                    old(self).residual_frozen@.update(page, true),
                _ => old(self).residual_frozen@,
            }),
    {
        if native_len == 0 || native_len % V4_NATIVE_BLOCK_SIZE != 0 {
            return;
        }
        if let Some(page) = self.find_last_page(native_len, block_table) {
            self.residual_frozen.set(page, true);
        }
    }

    /// Clears the frozen flag of a page that is recycled.
    pub fn clear_residual_frozen(&mut self, page: usize)
        requires
            old(self).wf(),
        ensures
            final(self).wf(),
            final(self).same_pages(old(self)),
            final(self).residual_frozen@ == (if page < old(self).num_pages {
                old(self).residual_frozen@.update(page as int, false)
            } else {
                old(self).residual_frozen@
            }),
    {
        if page < self.residual_frozen.len() {
            self.residual_frozen.set(page, false);
        }
    }

    /// Sets the frozen flag of the page that holds the last token: frozen at
    /// a block boundary, not frozen inside a block.
    pub fn update_residual_freeze(&mut self, native_len: usize, block_table: &[u32])
        requires
            old(self).wf(),
        ensures
            final(self).wf(),
            final(self).same_pages(old(self)),
            final(self).residual_frozen@ == (match old(self).last_page(native_len as int, block_table@) {
                Some(page) => old(self).residual_frozen@.update(
                    page, native_len as int % V4_NATIVE_BLOCK_SIZE as int == 0),
                None => old(self).residual_frozen@,
            }),
    {
        if let Some(page) = self.find_last_page(native_len, block_table) {
            self.residual_frozen.set(page, native_len % V4_NATIVE_BLOCK_SIZE == 0);
        }
    }

    /// The tensors of each layer in which `page` is to be set to 0: all of
    /// them, or none for a page that the pool does not have.
    pub fn zero_page(&self, page: usize) -> (r: Vec<Vec<PageTensor>>)
        requires
            self.wf(),
        ensures
            r@.len() == self.layers@.len(),
            forall|i: int| 0 <= i < r@.len() ==> (#[trigger] r@[i])@ == (if page < self.num_pages {
                self.layers@[i].tensors()
            } else {
                Seq::empty()
            }),
    {
        let mut cleared: Vec<Vec<PageTensor>> = Vec::new();
        let mut i: usize = 0;
        while i < self.layers.len()
            invariant
                i <= self.layers@.len(),
                self.wf(),
                cleared@.len() == i,
                forall|j: int| 0 <= j < i ==> (#[trigger] cleared@[j])@ == (if page < self.num_pages {
                    self.layers@[j].tensors()
                } else {
                    Seq::empty()
                }),
            decreases self.layers@.len() - i,
        {
            cleared.push(self.layers[i].zero_page(page));
            i = i + 1;
        }
        cleared
    }

    pub fn layer(&self, idx: usize) -> (r: Option<&V4LayerPages>)
        ensures
            r is Some <==> idx < self.layers@.len(),
            r matches Some(l) ==> *l == self.layers@[idx as int],
    {
        if idx < self.layers.len() {
            Some(&self.layers[idx])
        } else {
            None
        }
    }

    pub fn layer_mut(&mut self, idx: usize) -> (r: Option<&mut V4LayerPages>)
        ensures
            r is Some <==> idx < old(self).layers@.len(),
            r matches Some(l) ==> *l == old(self).layers@[idx as int]
                && final(self).layers@ == old(self).layers@.update(idx as int, *final(l)),
            r is None ==> final(self).layers@ == old(self).layers@,
            final(self).native_block_size == old(self).native_block_size,
            final(self).num_pages == old(self).num_pages,
            final(self).residual_frozen == old(self).residual_frozen,
    {
        if idx < self.layers.len() {
            Some(&mut self.layers[idx])
        } else {
            None
        }
    }

    /// The residual pages of a layer that a save or load addresses.
    pub open spec fn residual_pages(&self, layer_idx: int, indexer: bool) -> Option<PageShape> {
        if 0 <= layer_idx < self.layers@.len() {
            if indexer { self.layers@[layer_idx].indexer_residual } else { self.layers@[layer_idx].residual }
        } else {
            None
        }
    }

    fn find_residual(&self, layer_idx: usize, indexer: bool) -> (r: Option<PageShape>)
        ensures
            r == self.residual_pages(layer_idx as int, indexer),
    {
        if layer_idx >= self.layers.len() {
            return None;
        }
        if indexer {
            self.layers[layer_idx].indexer_residual
        } else {
            self.layers[layer_idx].residual
        }
    }

    /// The copy that saving a state makes, if any.
    pub open spec fn saved_residual(
        &self,
        layer_idx: int,
        kv_state: (usize, usize),
        score_state: (usize, usize),
        native_len: int,
        table: Seq<u32>,
        indexer: bool,
    ) -> Result<Option<ResidualCopy>, PoolError> {
        match (self.residual_pages(layer_idx, indexer), self.last_page(native_len, table)) {
            (Some(shape), Some(page)) => {
                let window = self.layers@[layer_idx].residual_window;
                let rows = if window <= kv_state.0 { window } else { kv_state.0 };
                if rows == 0 {
                    Ok::<Option<ResidualCopy>, PoolError>(None)
                } else if score_state.0 < rows {
                    Err(PoolError::ScoreRows { have: score_state.0, want: rows })
                } else if kv_state.1 + score_state.1 != shape.width {
                    Ok(None)
                } else {
                    Ok(Some(ResidualCopy { page: page as usize, rows, width: kv_state.1 }))
                }
            },
            _ => Ok(None),
        }
    }

    /// The copy that loading a state makes, if any.
    pub open spec fn loaded_residual(
        &self,
        layer_idx: int,
        kv_state: (usize, usize),
        native_len: int,
        table: Seq<u32>,
        indexer: bool,
    ) -> Option<ResidualCopy> {
        match (self.residual_pages(layer_idx, indexer), self.last_page(native_len, table)) {
            (Some(shape), Some(page)) => if self.layers@[layer_idx].residual_window == 0 || kv_state.0 == 0
                || shape.width != 2 * kv_state.1 {
                None
            } else {
                Some(ResidualCopy { page: page as usize, rows: shape.rows, width: kv_state.1 })
            },
            _ => None,
        }
    }

    /// The copy that packs the compressor state into the residual page of the
    /// last of `native_len` tokens.
    ///
    /// The state is two tensors, values and scores, each given by rows and
    /// width. Nothing is copied where the layer, the residual or the page is
    /// missing, where there is no row to copy, or where the packed width
    /// differs from that of the page.
    pub fn save_residual_from_state(
        &self,
        layer_idx: usize,
        kv_state: (usize, usize),
        score_state: (usize, usize),
        native_len: usize,
        block_table: &[u32],
        indexer: bool,
    ) -> (r: Result<Option<ResidualCopy>, PoolError>)
        requires
            self.wf(),
            kv_state.1 + score_state.1 <= usize::MAX,
        ensures
            r == self.saved_residual(layer_idx as int, kv_state, score_state, native_len as int, block_table@, indexer),
    {
        let shape = match self.find_residual(layer_idx, indexer) {
            Some(shape) => shape,
            None => return Ok(None),
        };
        let page: usize = match self.find_last_page(native_len, block_table) {
            Some(page) => page,
            None => return Ok(None),
        };
        let window: usize = self.layers[layer_idx].residual_window;
        let rows: usize = if window <= kv_state.0 { window } else { kv_state.0 };
        if rows == 0 {
            return Ok(None);
        }
        if score_state.0 < rows {
            return Err(PoolError::ScoreRows { have: score_state.0, want: rows });
        }
        if kv_state.1 + score_state.1 != shape.width {
            return Ok(None);
        }
        Ok(Some(ResidualCopy { page, rows, width: kv_state.1 }))
    }

    /// The copy that restores the compressor state from the residual page of
    /// the last of `native_len` tokens: all rows of the page.
    pub fn load_residual_into_state(
        &self,
        layer_idx: usize,
        kv_state: (usize, usize),
        native_len: usize,
        block_table: &[u32],
        indexer: bool,
    ) -> (r: Option<ResidualCopy>)
        requires
            self.wf(),
            2 * kv_state.1 <= usize::MAX,
        ensures
            r == self.loaded_residual(layer_idx as int, kv_state, native_len as int, block_table@, indexer),
    {
        let shape = match self.find_residual(layer_idx, indexer) {
            Some(shape) => shape,
            None => return None,
        };
        let page: usize = match self.find_last_page(native_len, block_table) {
            Some(page) => page,
            None => return None,
        };
        if self.layers[layer_idx].residual_window == 0 || kv_state.0 == 0 {
            return None;
        }
        if shape.width != 2 * kv_state.1 {
            return None;
        }
        Some(ResidualCopy { page, rows: shape.rows, width: kv_state.1 })
    }

    /// Positions as mathematical integers.
    pub open spec fn indices(positions: Seq<i64>) -> Seq<int> {
        positions.map_values(|p: i64| p as int)
    }

    /// The copies that put token rows at absolute positions into their pages.
    ///
    /// Rows at negative positions, in blocks that the table lacks and in
    /// pages that the pool lacks are left out.
    pub fn write_swa_rows(
        &self,
        layer_idx: usize,
        n: usize,
        abs_positions: &[i64],
        block_table: &[u32],
    ) -> (r: Result<Vec<PageWrite>, PoolError>)
        requires
            self.wf(),
        ensures
            layer_idx >= self.layers@.len() ==> (r matches Ok(c) && c@ == Seq::<PageWrite>::empty()),
            layer_idx < self.layers@.len() && n != abs_positions@.len()
                ==> r == Err::<Vec<PageWrite>, PoolError>(PoolError::LengthMismatch { kv: n, pos: abs_positions@.len() as usize }),
            layer_idx < self.layers@.len() && n == abs_positions@.len() ==> (r matches Ok(c) && writes_rows(
                c@,
                Self::indices(abs_positions@),
                block_table@,
                self.num_pages as int,
                V4_NATIVE_BLOCK_SIZE as int,
                self.layers@[layer_idx as int].head_dim as int,
            )),
    {
        let mut copies: Vec<PageWrite> = Vec::new();
        if layer_idx >= self.layers.len() {
            return Ok(copies);
        }
        if n != abs_positions.len() {
            return Err(PoolError::LengthMismatch { kv: n, pos: abs_positions.len() });
        }
        let hd: usize = self.layers[layer_idx].head_dim;
        assert(self.layers@[layer_idx as int].wf());
        let ghost index = Self::indices(abs_positions@);
        let ghost pages = self.num_pages as int;
        let mut i: usize = 0;
        while i < n
            invariant
                self.wf(),
                i <= n,
                n == abs_positions@.len(),
                index == Self::indices(abs_positions@),
                pages == self.num_pages,
                V4_NATIVE_BLOCK_SIZE * hd <= usize::MAX,
                writes_upto(copies@, index, i as int, block_table@, pages, V4_NATIVE_BLOCK_SIZE as int, hd as int),
            decreases n - i,
        {
            let pos: i64 = abs_positions[i];
            if pos < 0 {
                assert(home_of(block_table@, pages, V4_NATIVE_BLOCK_SIZE as int, index[i as int]) is None);
                i = i + 1;
            } else {
                let block: i64 = pos / 256;
                let row: usize = (pos % 256) as usize;
                let mut take: usize = 1;
                while i + take < n && abs_positions[i + take] >= 0
                    && abs_positions[i + take] - 1 == abs_positions[i + take - 1]
                    && abs_positions[i + take] / 256 == block
                    invariant
                        1 <= take,
                        i + take <= n,
                        n == abs_positions@.len(),
                        pos == abs_positions@[i as int],
                        pos >= 0,
                        block == pos as int / 256,
                        row == pos as int % 256,
                        row + take <= 256,
                        forall|k: int| i <= k < i + take ==> #[trigger] abs_positions@[k] == pos + k - i,
                    decreases n - take,
                {
                    take = take + 1;
                }
                proof {
                    lemma_same_page(pos as int, take as int, 256);
                    assert forall|k: int| i <= k < i + take implies #[trigger] home_of(block_table@, pages, 256, index[k])
                        == (match page_of(block_table@, pages, block as int) {
                            Some(page) => Some((page, row + k - i)),
                            None => None,
                        }) by {
                        assert(index[k] == pos + (k - i));
                        assert((pos + (k - i)) / 256 == block);
                    }
                }
                if (block as u64) < block_table.len() as u64 {
                    let page: usize = block_table[block as usize] as usize;
                    if page < self.num_pages {
                        proof {
                            lemma_mul_inequality(row as int, 256, hd as int);
                            assert(page_of(block_table@, pages, block as int) == Some(page as int));
                        }
                        let ghost before = copies@;
                        copies.push(PageWrite { src: i, rows: take, page, row, elem_offset: row * hd });
                        proof {
                            let e = i + take;
                            if e < n {
                                assert(index[e] == abs_positions@[e]);
                                assert(index[e - 1] == abs_positions@[e - 1]);
                                if index[e] == index[e - 1] + 1 {
                                    assert(index[e] / 256 != block);
                                    assert(index[e] % 256 == 0);
                                }
                            }
                            assert forall|k: int| 0 <= k < e && (#[trigger] home_of(block_table@, pages, 256, index[k])) is Some
                                implies exists|j: int| 0 <= j < copies@.len() && (#[trigger] copies@[j]).src <= k < copies@[j].src + copies@[j].rows by {
                                if k >= i {
                                    assert(copies@[before.len() as int].src <= k);
                                } else {
                                    let j = choose|j: int| 0 <= j < before.len() && (#[trigger] before[j]).src <= k < before[j].src + before[j].rows;
                                    assert(copies@[j] == before[j]);
                                }
                            }
                        }
                    }
                }
                i = i + take;
            }
        }
        Ok(copies)
    }

    /// The copies that put compressed rows into their pages; the first is
    /// row `first_row` of the sequence.
    pub fn write_compressed_rows(
        &self,
        layer_idx: usize,
        n: usize,
        first_row: usize,
        block_table: &[u32],
    ) -> (r: Vec<PageWrite>)
        requires
            self.wf(),
            first_row + n <= usize::MAX,
            layer_idx < self.layers@.len() && n > 0 ==> self.layers@[layer_idx as int].compress_ratio <= V4_NATIVE_BLOCK_SIZE,
        ensures
            layer_idx >= self.layers@.len() || self.layers@[layer_idx as int].compressed is None
                ==> r@ == Seq::<PageWrite>::empty(),
            layer_idx < self.layers@.len() && self.layers@[layer_idx as int].compressed is Some ==> writes_rows(
                r@,
                Seq::new(n as nat, |i: int| first_row + i),
                block_table@,
                self.num_pages as int,
                self.layers@[layer_idx as int].rows_per_page(),
                self.layers@[layer_idx as int].head_dim as int,
            ),
    {
        let mut copies: Vec<PageWrite> = Vec::new();
        if layer_idx >= self.layers.len() {
            return copies;
        }
        let layer = &self.layers[layer_idx];
        if layer.compressed.is_none() {
            return copies;
        }
        assert(self.layers@[layer_idx as int].wf());
        let rows_per_page: usize = V4_NATIVE_BLOCK_SIZE / layer.compress_ratio;
        let hd: usize = layer.head_dim;
        proof {
            if n > 0 {
                lemma_div_non_zero(V4_NATIVE_BLOCK_SIZE as int, layer.compress_ratio as int);
            }
            lemma_div_is_ordered_by_denominator(V4_NATIVE_BLOCK_SIZE as int, 1, layer.compress_ratio as int);
        }
        let ghost index = Seq::new(n as nat, |i: int| first_row + i);
        let ghost pages = self.num_pages as int;
        let ghost per = rows_per_page as int;
        let mut i: usize = 0;
        while i < n
            invariant
                self.wf(),
                i <= n,
                first_row + n <= usize::MAX,
                index == Seq::new(n as nat, |i: int| first_row + i),
                pages == self.num_pages,
                per == rows_per_page,
                per <= V4_NATIVE_BLOCK_SIZE,
                n > 0 ==> 0 < per,
                V4_NATIVE_BLOCK_SIZE * hd <= usize::MAX,
                writes_upto(copies@, index, i as int, block_table@, pages, per, hd as int),
            decreases n - i,
        {
            let abs_row: usize = first_row + i;
            let page_idx: usize = abs_row / rows_per_page;
            let row: usize = abs_row % rows_per_page;
            let room: usize = rows_per_page - row;
            let take: usize = if room < n - i { room } else { n - i };
            proof {
                lemma_same_page(abs_row as int, take as int, per);
                assert forall|k: int| i <= k < i + take implies #[trigger] home_of(block_table@, pages, per, index[k])
                    == (match page_of(block_table@, pages, page_idx as int) {
                        Some(page) => Some((page, row + k - i)),
                        None => None,
                    }) by {
                    assert(index[k] == abs_row + (k - i));
                    assert((abs_row + (k - i)) / per == page_idx);
                }
            }
            if page_idx < block_table.len() {
                let page: usize = block_table[page_idx] as usize;
                if page < self.num_pages {
                    proof {
                        lemma_mul_inequality(row as int, V4_NATIVE_BLOCK_SIZE as int, hd as int);
                        assert(page_of(block_table@, pages, page_idx as int) == Some(page as int));
                    }
                    let ghost before = copies@;
                    copies.push(PageWrite { src: i, rows: take, page, row, elem_offset: row * hd });
                    proof {
                        let e = i + take;
                        if e < n {
                            assert(index[e] == abs_row + room);
                            lemma_fundamental_div_mod(abs_row as int, per);
                            assert(abs_row + room == per * (abs_row as int / per) + per);
                            assert(per * (abs_row as int / per) + per == (abs_row as int / per + 1) * per) by (nonlinear_arith);
                            lemma_mod_multiples_basic(abs_row as int / per + 1, per);
                        }
                        assert forall|k: int| 0 <= k < e && (#[trigger] home_of(block_table@, pages, per, index[k])) is Some
                            implies exists|j: int| 0 <= j < copies@.len() && (#[trigger] copies@[j]).src <= k < copies@[j].src + copies@[j].rows by {
                            if k >= i {
                                assert(copies@[before.len() as int].src <= k);
                            } else {
                                let j = choose|j: int| 0 <= j < before.len() && (#[trigger] before[j]).src <= k < before[j].src + before[j].rows;
                                assert(copies@[j] == before[j]);
                            }
                        }
                    }
                }
            }
            i = i + take;
        }
        copies
    }

    /// The copies that fill the sparse buffer for a sequence of `native_len`
    /// tokens: the last `sliding_window` tokens into a ring, position modulo
    /// window, and the first `compressed_len` compressed rows behind it.
    pub fn gather_sparse_into(
        &self,
        layer_idx: usize,
        sliding_window: usize,
        compressed_len: usize,
        native_len: usize,
        block_table: &[u32],
    ) -> (r: GatherPlan)
        requires
            self.wf(),
            layer_idx < self.layers@.len() ==> (sliding_window + compressed_len) * self.layers@[layer_idx as int].head_dim <= usize::MAX,
            sliding_window + compressed_len <= usize::MAX,
            layer_idx < self.layers@.len() && compressed_len > 0 ==> self.layers@[layer_idx as int].compress_ratio <= V4_NATIVE_BLOCK_SIZE,
        ensures
            layer_idx >= self.layers@.len() || native_len == 0
                ==> r.window@ == Seq::<PageGather>::empty() && r.compressed@ == Seq::<PageGather>::empty(),
            layer_idx < self.layers@.len() && native_len > 0 ==> gathers_rows(
                r.window@,
                if native_len >= sliding_window { native_len - sliding_window } else { 0 },
                native_len as int,
                block_table@,
                self.num_pages as int,
                V4_NATIVE_BLOCK_SIZE as int,
                self.layers@[layer_idx as int].head_dim as int,
                true,
                sliding_window as int,
            ),
            layer_idx < self.layers@.len() && native_len > 0 && self.layers@[layer_idx as int].compressed is None
                ==> r.compressed@ == Seq::<PageGather>::empty(),
            layer_idx < self.layers@.len() && native_len > 0 && self.layers@[layer_idx as int].compressed is Some ==> gathers_rows(
                r.compressed@,
                0,
                compressed_len as int,
                block_table@,
                self.num_pages as int,
                self.layers@[layer_idx as int].rows_per_page(),
                self.layers@[layer_idx as int].head_dim as int,
                false,
                sliding_window as int,
            ),
    {
        if layer_idx >= self.layers.len() || native_len == 0 {
            return GatherPlan { window: Vec::new(), compressed: Vec::new() };
        }
        let layer = &self.layers[layer_idx];
        assert(self.layers@[layer_idx as int].wf());
        let hd: usize = layer.head_dim;
        proof {
            lemma_mul_inequality(sliding_window as int, sliding_window + compressed_len, hd as int);
        }
        let window = self.gather_window(sliding_window, native_len, block_table, hd);
        let compressed = if layer.compressed.is_some() {
            let rows_per_page: usize = V4_NATIVE_BLOCK_SIZE / layer.compress_ratio;
            proof {
                if compressed_len > 0 {
                    lemma_div_non_zero(V4_NATIVE_BLOCK_SIZE as int, layer.compress_ratio as int);
                }
            }
            self.gather_compressed(sliding_window, compressed_len, rows_per_page, block_table, hd)
        } else {
            Vec::new()
        };
        GatherPlan { window, compressed }
    }

    fn gather_window(&self, sliding_window: usize, native_len: usize, block_table: &[u32], hd: usize) -> (r: Vec<PageGather>)
        requires
            self.wf(),
            sliding_window * hd <= usize::MAX,
        ensures
            gathers_rows(
                r@,
                if native_len >= sliding_window { native_len - sliding_window } else { 0 },
                native_len as int,
                block_table@,
                self.num_pages as int,
                V4_NATIVE_BLOCK_SIZE as int,
                hd as int,
                true,
                sliding_window as int,
            ),
    {
        let mut copies: Vec<PageGather> = Vec::new();
        let win_start: usize = if native_len >= sliding_window { native_len - sliding_window } else { 0 };
        let ghost pages = self.num_pages as int;
        let mut pos: usize = win_start;
        while pos < native_len
            invariant
                self.wf(),
                pages == self.num_pages,
                win_start <= pos <= native_len,
                win_start < native_len ==> sliding_window > 0,
                sliding_window * hd <= usize::MAX,
                gathers_rows(copies@, win_start as int, pos as int, block_table@, pages, 256, hd as int, true, sliding_window as int),
            decreases native_len - pos,
        {
            let page_idx: usize = pos / V4_NATIVE_BLOCK_SIZE;
            let row: usize = pos % V4_NATIVE_BLOCK_SIZE;
            let room: usize = V4_NATIVE_BLOCK_SIZE - row;
            let take: usize = if room < native_len - pos { room } else { native_len - pos };
            proof {
                lemma_same_page(pos as int, take as int, 256);
                assert forall|k: int| pos <= k < pos + take implies #[trigger] home_of(block_table@, pages, 256, k)
                    == (match page_of(block_table@, pages, page_idx as int) {
                        Some(page) => Some((page, row + k - pos)),
                        None => None,
                    }) by {
                    assert(k / 256 == page_idx);
                }
            }
            if page_idx < block_table.len() && (block_table[page_idx] as usize) < self.num_pages {
                let page: usize = block_table[page_idx] as usize;
                assert(page_of(block_table@, pages, page_idx as int) == Some(page as int));
                let mut copied: usize = 0;
                while copied < take
                    invariant
                        pos + take <= native_len,
                        copied <= take,
                        take <= 256,
                        row + take <= 256,
                        sliding_window > 0,
                        win_start <= pos,
                        sliding_window * hd <= usize::MAX,
                        forall|k: int| pos <= k < pos + take ==> #[trigger] home_of(block_table@, pages, 256, k) == Some((page as int, row + k - pos)),
                        gathers_rows(copies@, win_start as int, pos + copied, block_table@, pages, 256, hd as int, true, sliding_window as int),
                    decreases take - copied,
                {
                    let abs: usize = pos + copied;
                    let slot: usize = abs % sliding_window;
                    let left: usize = sliding_window - slot;
                    let run: usize = if left < take - copied { left } else { take - copied };
                    proof {
                        lemma_same_page(abs as int, run as int, sliding_window as int);
                        lemma_mul_inequality(slot as int, sliding_window as int, hd as int);
                        assert forall|k: int| abs <= k < abs + run implies #[trigger] slot_of(true, sliding_window as int, k) == slot + k - abs by {
                            assert(k % (sliding_window as int) == abs as int % sliding_window as int + (k - abs));
                        }
                    }
                    let ghost before = copies@;
                    copies.push(PageGather { abs, rows: run, page, row: row + copied, slot, elem_offset: slot * hd });
                    proof {
                        lemma_gather_cover(before, copies@, win_start as int, abs as int, abs + run, block_table@, pages, 256);
                    }
                    copied = copied + run;
                }
            }
            pos = pos + take;
        }
        copies
    }

    fn gather_compressed(
        &self,
        sliding_window: usize,
        compressed_len: usize,
        rows_per_page: usize,
        block_table: &[u32],
        hd: usize,
    ) -> (r: Vec<PageGather>)
        requires
            self.wf(),
            compressed_len > 0 ==> rows_per_page > 0,
            sliding_window + compressed_len <= usize::MAX,
            (sliding_window + compressed_len) * hd <= usize::MAX,
        ensures
            gathers_rows(
                r@, 0, compressed_len as int, block_table@, self.num_pages as int, rows_per_page as int, hd as int,
                false, sliding_window as int,
            ),
    {
        let mut copies: Vec<PageGather> = Vec::new();
        let ghost pages = self.num_pages as int;
        let ghost per = rows_per_page as int;
        let mut abs_row: usize = 0;
        while abs_row < compressed_len
            invariant
                self.wf(),
                pages == self.num_pages,
                per == rows_per_page,
                compressed_len > 0 ==> per > 0,
                abs_row <= compressed_len,
                sliding_window + compressed_len <= usize::MAX,
                (sliding_window + compressed_len) * hd <= usize::MAX,
                gathers_rows(copies@, 0, abs_row as int, block_table@, pages, per, hd as int, false, sliding_window as int),
            decreases compressed_len - abs_row,
        {
            let page_idx: usize = abs_row / rows_per_page;
            let row: usize = abs_row % rows_per_page;
            let room: usize = rows_per_page - row;
            let take: usize = if room < compressed_len - abs_row { room } else { compressed_len - abs_row };
            proof {
                lemma_same_page(abs_row as int, take as int, per);
                assert forall|k: int| abs_row <= k < abs_row + take implies #[trigger] home_of(block_table@, pages, per, k)
                    == (match page_of(block_table@, pages, page_idx as int) {
                        Some(page) => Some((page, row + k - abs_row)),
                        None => None,
                    }) by {
                    assert(k / per == page_idx);
                }
            }
            if page_idx < block_table.len() && (block_table[page_idx] as usize) < self.num_pages {
                let page: usize = block_table[page_idx] as usize;
                assert(page_of(block_table@, pages, page_idx as int) == Some(page as int));
                proof {
                    lemma_mul_inequality(sliding_window + abs_row, sliding_window + compressed_len, hd as int);
                }
                let ghost before = copies@;
                let slot: usize = sliding_window + abs_row;
                copies.push(PageGather { abs: abs_row, rows: take, page, row, slot, elem_offset: slot * hd });
                proof {
                    lemma_gather_cover(before, copies@, 0, abs_row as int, abs_row + take, block_table@, pages, per);
                }
            }
            abs_row = abs_row + take;
        }
        copies
    }
}

/// A gather that covers `lo..mid`, lengthened by a copy of `mid..hi`, covers
/// `lo..hi`.
proof fn lemma_gather_cover(
    before: Seq<PageGather>,
    after: Seq<PageGather>,
    lo: int,
    mid: int,
    hi: int,
    table: Seq<u32>,
    pages: int,
    per: int,
)
    requires
        after.len() == before.len() + 1,
        after.drop_last() =~= before,
        after.last().abs == mid,
        after.last().abs + after.last().rows == hi,
        forall|k: int| lo <= k < mid && (#[trigger] home_of(table, pages, per, k)) is Some
            ==> exists|i: int| 0 <= i < before.len() && (#[trigger] before[i]).abs <= k < before[i].abs + before[i].rows,
    ensures
        forall|k: int| lo <= k < hi && (#[trigger] home_of(table, pages, per, k)) is Some
            ==> exists|i: int| 0 <= i < after.len() && (#[trigger] after[i]).abs <= k < after[i].abs + after[i].rows,
{
    assert forall|k: int| lo <= k < hi && (#[trigger] home_of(table, pages, per, k)) is Some
        implies exists|i: int| 0 <= i < after.len() && (#[trigger] after[i]).abs <= k < after[i].abs + after[i].rows by {
        if k >= mid {
            assert(after[before.len() as int].abs <= k);
        } else {
            let i = choose|i: int| 0 <= i < before.len() && (#[trigger] before[i]).abs <= k < before[i].abs + before[i].rows;
            assert(after[i] == before[i]);
        }
    }
}

/// A page is frozen for a prefix exactly when the last update at that page
/// was made at a block boundary: right after an update at `native_len`, the
/// prefix is reusable iff `native_len` ends a block that the pool holds.
pub proof fn law_update_decides_freeze(before: V4HybridPagePool, after: V4HybridPagePool, native_len: nat, table: Seq<u32>)
    requires
        before.wf(),
        after.wf(),
        after.same_pages(&before),
        after.residual_frozen@ == (match before.last_page(native_len as int, table) {
            Some(page) => before.residual_frozen@.update(page, native_len as int % V4_NATIVE_BLOCK_SIZE as int == 0),
            None => before.residual_frozen@,
        }),
    ensures
        after.frozen_at(native_len as int, table) <==> before.last_page(native_len as int, table) is Some
            && native_len as int % V4_NATIVE_BLOCK_SIZE as int == 0,
{
}

/// A recycled page is no prefix any more: once its flag is cleared, no
/// length whose last page it is counts as frozen.
pub proof fn law_recycled_page_not_frozen(before: V4HybridPagePool, after: V4HybridPagePool, page: nat, native_len: int, table: Seq<u32>)
    requires
        before.wf(),
        after.wf(),
        after.same_pages(&before),
        page < before.num_pages,
        after.residual_frozen@ == before.residual_frozen@.update(page as int, false),
    ensures
        before.last_page(native_len, table) == Some(page as int) ==> !after.frozen_at(native_len, table),
        before.last_page(native_len, table) != Some(page as int)
            ==> after.frozen_at(native_len, table) == before.frozen_at(native_len, table),
{
}

/// Pages as a memory: the row that each page and row hold.
pub open spec fn after_writes<T>(mem: Map<(int, int), T>, copies: Seq<PageWrite>, src: Seq<T>) -> Map<(int, int), T>
    decreases copies.len(),
{
    if copies.len() == 0 {
        mem
    } else {
        let c = copies.last();
        after_writes(mem, copies.drop_last(), src).union_prefer_right(
            Map::new(
                |at: (int, int)| at.0 == c.page && c.row <= at.1 < c.row + c.rows,
                |at: (int, int)| src[c.src + at.1 - c.row],
            ),
        )
    }
}

/// The sparse buffer after a gather: the row that each slot holds.
pub open spec fn after_gather<T>(buffer: Map<int, T>, copies: Seq<PageGather>, mem: Map<(int, int), T>) -> Map<int, T>
    decreases copies.len(),
{
    if copies.len() == 0 {
        buffer
    } else {
        let c = copies.last();
        after_gather(buffer, copies.drop_last(), mem).union_prefer_right(
            Map::new(
                |slot: int| c.slot <= slot < c.slot + c.rows,
                |slot: int| mem[(c.page as int, c.row + slot - c.slot)],
            ),
        )
    }
}

/// Whether no two source rows share a home.
pub open spec fn homes_distinct(index: Seq<int>, table: Seq<u32>, num_pages: int, per: int) -> bool {
    forall|i: int, j: int| 0 <= i < j < index.len() && (#[trigger] home_of(table, num_pages, per, index[i])) is Some
        ==> home_of(table, num_pages, per, index[i]) != #[trigger] home_of(table, num_pages, per, index[j])
}

proof fn lemma_written<T>(
    mem: Map<(int, int), T>,
    copies: Seq<PageWrite>,
    n: int,
    src: Seq<T>,
    index: Seq<int>,
    table: Seq<u32>,
    num_pages: int,
    per: int,
    width: int,
    k: int,
)
    requires
        n <= copies.len(),
        writes_rows(copies, index, table, num_pages, per, width),
        homes_distinct(index, table, num_pages, per),
        src.len() == index.len(),
        0 <= k < index.len(),
        home_of(table, num_pages, per, index[k]) is Some,
        exists|i: int| 0 <= i < n && (#[trigger] copies[i]).src <= k < copies[i].src + copies[i].rows,
    ensures
        ({
            let at = home_of(table, num_pages, per, index[k])->0;
            let after = after_writes(mem, copies.take(n), src);
            after.dom().contains(at) && after[at] == src[k]
        }),
    decreases n,
{
    let at = home_of(table, num_pages, per, index[k])->0;
    let i = choose|i: int| 0 <= i < n && (#[trigger] copies[i]).src <= k < copies[i].src + copies[i].rows;
    let c = copies[n - 1];
    assert(copies.take(n).drop_last() =~= copies.take(n - 1));
    assert(copies.take(n).last() == c);
    if i == n - 1 {
        assert(at == (c.page as int, c.row + k - c.src));
    } else {
        lemma_written(mem, copies, n - 1, src, index, table, num_pages, per, width, k);
        if at.0 == c.page && c.row <= at.1 < c.row + c.rows {
            let j = c.src + at.1 - c.row;
            assert(home_of(table, num_pages, per, index[j]) == Some(at));
            assert(copies[i].src + copies[i].rows <= copies[n - 1].src);
            assert(k < j);
            assert(false);
        }
    }
}

/// A write puts every row with a home of its own there.
pub proof fn law_write_lands<T>(
    mem: Map<(int, int), T>,
    copies: Seq<PageWrite>,
    src: Seq<T>,
    index: Seq<int>,
    table: Seq<u32>,
    num_pages: int,
    per: int,
    width: int,
    k: int,
)
    requires
        writes_rows(copies, index, table, num_pages, per, width),
        homes_distinct(index, table, num_pages, per),
        src.len() == index.len(),
        0 <= k < index.len(),
        home_of(table, num_pages, per, index[k]) is Some,
    ensures
        ({
            let at = home_of(table, num_pages, per, index[k])->0;
            let after = after_writes(mem, copies, src);
            after.dom().contains(at) && after[at] == src[k]
        }),
{
    assert(copies.take(copies.len() as int) =~= copies);
    lemma_written(mem, copies, copies.len() as int, src, index, table, num_pages, per, width, k);
}

/// A write leaves every row alone that is no home of a written row.
pub proof fn law_write_leaves_the_rest<T>(
    mem: Map<(int, int), T>,
    copies: Seq<PageWrite>,
    src: Seq<T>,
    index: Seq<int>,
    table: Seq<u32>,
    num_pages: int,
    per: int,
    width: int,
    at: (int, int),
)
    requires
        writes_rows(copies, index, table, num_pages, per, width),
        forall|k: int| 0 <= k < index.len() ==> #[trigger] home_of(table, num_pages, per, index[k]) != Some(at),
    ensures
        after_writes(mem, copies, src).dom().contains(at) == mem.dom().contains(at),
        mem.dom().contains(at) ==> after_writes(mem, copies, src)[at] == mem[at],
{
    lemma_untouched(mem, copies, copies.len() as int, src, index, table, num_pages, per, width, at);
    assert(copies.take(copies.len() as int) =~= copies);
}

proof fn lemma_untouched<T>(
    mem: Map<(int, int), T>,
    copies: Seq<PageWrite>,
    n: int,
    src: Seq<T>,
    index: Seq<int>,
    table: Seq<u32>,
    num_pages: int,
    per: int,
    width: int,
    at: (int, int),
)
    requires
        0 <= n <= copies.len(),
        writes_rows(copies, index, table, num_pages, per, width),
        forall|k: int| 0 <= k < index.len() ==> #[trigger] home_of(table, num_pages, per, index[k]) != Some(at),
    ensures
        after_writes(mem, copies.take(n), src).dom().contains(at) == mem.dom().contains(at),
        mem.dom().contains(at) ==> after_writes(mem, copies.take(n), src)[at] == mem[at],
    decreases n,
{
    if n > 0 {
        let c = copies[n - 1];
        assert(copies.take(n).drop_last() =~= copies.take(n - 1));
        assert(copies.take(n).last() == c);
        lemma_untouched(mem, copies, n - 1, src, index, table, num_pages, per, width, at);
        if at.0 == c.page && c.row <= at.1 < c.row + c.rows {
            let j = c.src + at.1 - c.row;
            assert(home_of(table, num_pages, per, index[j]) == Some(at));
        }
    }
}

/// Distinct indices of one gather go to distinct slots.
proof fn lemma_slots_distinct(ring: bool, sliding_window: int, lo: int, hi: int, a: int, b: int)
    requires
        0 <= lo <= a < b < hi,
        ring ==> sliding_window > 0 && hi - lo <= sliding_window,
    ensures
        slot_of(ring, sliding_window, a) != slot_of(ring, sliding_window, b),
{
    if ring && a % sliding_window == b % sliding_window {
        lemma_fundamental_div_mod(a, sliding_window);
        lemma_fundamental_div_mod(b, sliding_window);
        let d = b / sliding_window - a / sliding_window;
        assert(b - a == sliding_window * d) by (nonlinear_arith)
            requires
                b == sliding_window * (b / sliding_window) + b % sliding_window,
                a == sliding_window * (a / sliding_window) + a % sliding_window,
                a % sliding_window == b % sliding_window,
                d == b / sliding_window - a / sliding_window,
        ;
        assert(false) by (nonlinear_arith)
            requires
                0 < b - a < sliding_window,
                b - a == sliding_window * d,
        ;
    }
}

proof fn lemma_gathered<T>(
    buffer: Map<int, T>,
    copies: Seq<PageGather>,
    n: int,
    mem: Map<(int, int), T>,
    lo: int,
    hi: int,
    table: Seq<u32>,
    num_pages: int,
    per: int,
    width: int,
    ring: bool,
    sliding_window: int,
    k: int,
)
    requires
        n <= copies.len(),
        0 <= lo,
        ring ==> sliding_window > 0 && hi - lo <= sliding_window,
        gathers_rows(copies, lo, hi, table, num_pages, per, width, ring, sliding_window),
        lo <= k < hi,
        home_of(table, num_pages, per, k) is Some,
        exists|i: int| 0 <= i < n && (#[trigger] copies[i]).abs <= k < copies[i].abs + copies[i].rows,
    ensures
        ({
            let slot = slot_of(ring, sliding_window, k);
            let after = after_gather(buffer, copies.take(n), mem);
            after.dom().contains(slot) && after[slot] == mem[home_of(table, num_pages, per, k)->0]
        }),
    decreases n,
{
    let slot = slot_of(ring, sliding_window, k);
    let i = choose|i: int| 0 <= i < n && (#[trigger] copies[i]).abs <= k < copies[i].abs + copies[i].rows;
    let c = copies[n - 1];
    assert(copies.take(n).drop_last() =~= copies.take(n - 1));
    assert(copies.take(n).last() == c);
    if i == n - 1 {
        assert(slot == c.slot + k - c.abs);
    } else {
        lemma_gathered(buffer, copies, n - 1, mem, lo, hi, table, num_pages, per, width, ring, sliding_window, k);
        if c.slot <= slot < c.slot + c.rows {
            let j = c.abs + slot - c.slot;
            assert(slot_of(ring, sliding_window, j) == slot);
            assert(copies[i].abs + copies[i].rows <= copies[n - 1].abs);
            lemma_slots_distinct(ring, sliding_window, lo, hi, k, j);
        }
    }
}

/// What a gather reads of a write: every token of the sliding window that was
/// written stands in its ring slot, position modulo window, as it was
/// written.
pub proof fn law_gather_reads_what_was_written<T>(
    pool: V4HybridPagePool,
    mem: Map<(int, int), T>,
    buffer: Map<int, T>,
    writes: Seq<PageWrite>,
    gathers: Seq<PageGather>,
    positions: Seq<i64>,
    src: Seq<T>,
    table: Seq<u32>,
    native_len: int,
    sliding_window: int,
    width: int,
    k: int,
)
    requires
        writes_rows(writes, V4HybridPagePool::indices(positions), table, pool.num_pages as int, V4_NATIVE_BLOCK_SIZE as int, width),
        gathers_rows(
            gathers,
            if native_len >= sliding_window { native_len - sliding_window } else { 0 },
            native_len,
            table,
            pool.num_pages as int,
            V4_NATIVE_BLOCK_SIZE as int,
            width,
            true,
            sliding_window,
        ),
        homes_distinct(V4HybridPagePool::indices(positions), table, pool.num_pages as int, V4_NATIVE_BLOCK_SIZE as int),
        src.len() == positions.len(),
        sliding_window > 0,
        0 <= k < positions.len(),
        native_len - sliding_window <= positions[k] < native_len,
        home_of(table, pool.num_pages as int, V4_NATIVE_BLOCK_SIZE as int, positions[k] as int) is Some,
    ensures
        ({
            let after = after_gather(buffer, gathers, after_writes(mem, writes, src));
            let slot = positions[k] as int % sliding_window;
            after.dom().contains(slot) && after[slot] == src[k]
        }),
{
    let index = V4HybridPagePool::indices(positions);
    let lo = if native_len >= sliding_window { native_len - sliding_window } else { 0 };
    assert(index[k] == positions[k]);
    law_write_lands(mem, writes, src, index, table, pool.num_pages as int, 256, width, k);
    assert(gathers.take(gathers.len() as int) =~= gathers);
    lemma_gathered(
        buffer, gathers, gathers.len() as int, after_writes(mem, writes, src), lo, native_len, table,
        pool.num_pages as int, 256, width, true, sliding_window, positions[k] as int,
    );
}

/// The same for compressed rows, which stand behind the ring in their own
/// order.
pub proof fn law_gather_reads_compressed_rows<T>(
    mem: Map<(int, int), T>,
    buffer: Map<int, T>,
    writes: Seq<PageWrite>,
    gathers: Seq<PageGather>,
    first_row: nat,
    src: Seq<T>,
    table: Seq<u32>,
    num_pages: int,
    per: int,
    compressed_len: int,
    sliding_window: int,
    width: int,
    k: int,
)
    requires
        per > 0,
        writes_rows(writes, Seq::new(src.len(), |i: int| first_row + i), table, num_pages, per, width),
        gathers_rows(gathers, 0, compressed_len, table, num_pages, per, width, false, sliding_window),
        homes_distinct(Seq::new(src.len(), |i: int| first_row + i), table, num_pages, per),
        0 <= k < src.len(),
        first_row + k < compressed_len,
        home_of(table, num_pages, per, first_row + k) is Some,
    ensures
        ({
            let after = after_gather(buffer, gathers, after_writes(mem, writes, src));
            let slot = sliding_window + first_row + k;
            after.dom().contains(slot) && after[slot] == src[k]
        }),
{
    let index = Seq::new(src.len(), |i: int| first_row + i);
    law_write_lands(mem, writes, src, index, table, num_pages, per, width, k);
    assert(gathers.take(gathers.len() as int) =~= gathers);
    lemma_gathered(
        buffer, gathers, gathers.len() as int, after_writes(mem, writes, src), 0, compressed_len, table,
        num_pages, per, width, false, sliding_window, first_row + k,
    );
}

/// With a block table that repeats no page, distinct rows have distinct homes.
pub proof fn law_table_without_repeats_separates_rows(index: Seq<int>, table: Seq<u32>, num_pages: int, per: int)
    requires
        per > 0,
        table.no_duplicates(),
        index.no_duplicates(),
    ensures
        homes_distinct(index, table, num_pages, per),
{
    assert forall|i: int, j: int| 0 <= i < j < index.len() && (#[trigger] home_of(table, num_pages, per, index[i])) is Some
        implies home_of(table, num_pages, per, index[i]) != #[trigger] home_of(table, num_pages, per, index[j]) by {
        if home_of(table, num_pages, per, index[i]) == home_of(table, num_pages, per, index[j]) {
            assert(index[i] / per == index[j] / per);
            lemma_fundamental_div_mod(index[i], per);
            lemma_fundamental_div_mod(index[j], per);
        }
    }
}

/// A state that was saved is loaded back whole, from the same page, where it
/// has as many rows as the page.
pub proof fn law_residual_round_trip(
    pool: V4HybridPagePool,
    layer_idx: int,
    state: (usize, usize),
    native_len: int,
    table: Seq<u32>,
    indexer: bool,
)
    requires
        pool.wf(),
        pool.saved_residual(layer_idx, state, state, native_len, table, indexer) matches Ok(Some(_)),
        pool.residual_pages(layer_idx, indexer) matches Some(shape) && shape.rows == state.0
            && shape.rows == pool.layers@[layer_idx].residual_window,
    ensures
        pool.saved_residual(layer_idx, state, state, native_len, table, indexer)
            == Ok::<Option<ResidualCopy>, PoolError>(pool.loaded_residual(layer_idx, state, native_len, table, indexer)),
        pool.loaded_residual(layer_idx, state, native_len, table, indexer) matches Some(c)
            && c.rows == state.0 && c.width == state.1,
{
}

/// Saving always finds room for the state of the layer's own compressor:
/// where the last page is in the pool, all of its rows are saved.
pub proof fn law_compressor_state_is_saved(
    pool: V4HybridPagePool,
    spec: V4LayerCacheSpec,
    layer_idx: int,
    state: (usize, usize),
    native_len: int,
    table: Seq<u32>,
)
    requires
        pool.wf(),
        0 <= layer_idx < pool.layers@.len(),
        pool.layers@[layer_idx].of_spec(spec, pool.num_pages),
        spec.residual_window > 0,
        spec.packed_width() <= usize::MAX,
        state.0 == spec.residual_window,
        state.1 == spec.overlap_factor() * spec.head_dim,
        pool.last_page(native_len, table) is Some,
    ensures
        pool.saved_residual(layer_idx, state, state, native_len, table, false) matches Ok(Some(c)) && c.rows == state.0,
        pool.residual_pages(layer_idx, false) matches Some(shape) && shape.rows == state.0,
{
}

/// What the pool allocates is what the layer specification counts: the page
/// tensors of a layer take as many bytes as its native blocks do, one block
/// to a page.
pub proof fn law_pool_bytes_match_the_specification(pages: V4LayerPages, spec: V4LayerCacheSpec, num_pages: usize)
    requires
        pages.of_spec(spec, num_pages),
        spec.compress_ratio == 0 || spec.compress_ratio == 4 || spec.compress_ratio == 128,
        spec.index_head_dim is Some <==> spec.compress_ratio == 4,
        spec.residual_window > 0 <==> spec.compress_ratio > 0,
        spec.packed_width() <= usize::MAX,
        4 * spec.index_width() <= usize::MAX,
    ensures
        pages.bytes() == num_pages as nat * sum(spec.all_page_bytes()),
{
    let sizes = spec.all_page_bytes();
    let kinds = spec.cache_kinds();
    reveal_with_fuel(sum, 6);
    assert forall|i: int| 0 <= i < kinds.len() implies sizes[i] == spec.page_bytes(kinds[i]) by {}
    let n = num_pages as int;
    if spec.compress_ratio == 0 {
        assert(sum(sizes) == sizes[0]);
    } else if spec.compress_ratio == 128 {
        assert(sizes.len() == 3);
        assert(sum(sizes) == sizes[0] + sizes[1] + sizes[2]);
        lemma_mul_is_distributive_add(n, sizes[0] + sizes[1] as int, sizes[2] as int);
        lemma_mul_is_distributive_add(n, sizes[0] as int, sizes[1] as int);
    } else {
        assert(sizes.len() == 5);
        assert(sum(sizes) == sizes[0] + sizes[1] + sizes[2] + sizes[3] + sizes[4]);
        lemma_mul_is_distributive_add(n, sizes[0] + sizes[1] + sizes[2] + sizes[3] as int, sizes[4] as int);
        lemma_mul_is_distributive_add(n, sizes[0] + sizes[1] + sizes[2] as int, sizes[3] as int);
        lemma_mul_is_distributive_add(n, sizes[0] + sizes[1] as int, sizes[2] as int);
        lemma_mul_is_distributive_add(n, sizes[0] as int, sizes[1] as int);
    }
}

/// Page tensors of a layer: token rows, 256 to a page; compressed rows, as many
/// as whole compression blocks of a page, where the layer compresses; packed
/// residuals in single precision; and, with an indexer, its compressed rows and
/// residuals. All have as many pages as are asked for and start at 0.
pub proof fn law_page_tensors_of_a_layer(spec: V4LayerCacheSpec, num_pages: usize, r: V4LayerPages)
    requires
        spec.packed_width() <= usize::MAX,
        4 * spec.index_width() <= usize::MAX,
        call_ensures(V4LayerPages::new, (&spec, num_pages), r),
    ensures
        r.swa.pages == num_pages && r.swa.rows == 256 && r.swa.width == spec.head_dim && r.swa.dtype == DType::BF16
            && r.swa.fill == Fill::Zero,
        r.compressed is Some <==> spec.compress_ratio > 0,
        r.compressed matches Some(p) ==> p.pages == num_pages && p.rows * spec.compress_ratio <= 256 < (p.rows + 1) * spec.compress_ratio
            && p.width == spec.head_dim && p.dtype == DType::BF16 && p.fill == Fill::Zero,
        r.residual is Some <==> spec.residual_window > 0,
        r.residual matches Some(p) ==> p.pages == num_pages && p.rows == spec.residual_window && p.dtype == DType::F32
            && p.fill == Fill::Zero && (spec.compress_ratio == 4 ==> p.width == 4 * spec.head_dim) && (spec.compress_ratio != 4
            ==> p.width == 2 * spec.head_dim),
        r.indexer_compressed is Some <==> spec.index_head_dim is Some,
        r.indexer_residual is Some <==> spec.index_head_dim is Some,
        r.indexer_compressed matches Some(p) ==> p.pages == num_pages && p.width == spec.index_head_dim->0 && p.dtype == DType::BF16
            && p.fill == Fill::Zero && (spec.compress_ratio > 0 ==> p.rows * spec.compress_ratio <= 256 < (p.rows + 1)
            * spec.compress_ratio),
        r.indexer_residual matches Some(p) ==> p.pages == num_pages && p.rows == spec.residual_window
            && p.width == 4 * spec.index_head_dim->0 && p.dtype == DType::F32 && p.fill == Fill::Zero,
        r.compress_ratio == spec.compress_ratio && r.head_dim == spec.head_dim && r.residual_window == spec.residual_window
            && r.index_head_dim == spec.index_head_dim,
{
    if spec.compress_ratio > 0 {
        let (c, n) = (spec.compress_ratio as int, 256int / spec.compress_ratio as int);
        lemma_fundamental_div_mod(256, c);
        lemma_mul_is_commutative(c, n);
        assert((n + 1) * c == n * c + c) by (nonlinear_arith);
        lemma_div_pos_is_pos(256, c);
        assert(n <= 256) by (nonlinear_arith)
            requires
                n * c <= 256,
                c >= 1,
                n >= 0,
        ;
    }
}

/// Clearing a page of the pool clears it in every tensor that a layer has, and
/// in none for a page that the pool lacks.
pub proof fn law_clearing_a_page_clears_all_tensors(pool: V4HybridPagePool, page: usize, r: Vec<Vec<PageTensor>>, i: int)
    requires
        pool.wf(),
        call_ensures(V4HybridPagePool::zero_page, (&pool, page), r),
        0 <= i < pool.layers@.len(),
    ensures
        r@.len() == pool.layers@.len(),
        page >= pool.num_pages ==> r@[i]@.len() == 0,
        page < pool.num_pages ==> {
            let (l, t) = (pool.layers@[i], r@[i]@);
            &&& t.contains(PageTensor::Swa)
            &&& t.contains(PageTensor::Compressed) <==> l.compressed is Some
            &&& t.contains(PageTensor::Residual) <==> l.residual is Some
            &&& t.contains(PageTensor::IndexerCompressed) <==> l.indexer_compressed is Some
            &&& t.contains(PageTensor::IndexerResidual) <==> l.indexer_residual is Some
        },
{
    if page < pool.num_pages {
        let (l, t) = (pool.layers@[i], r@[i]@);
        let a = 1int;
        let b = if l.compressed is Some { a + 1 } else { a };
        let c = if l.residual is Some { b + 1 } else { b };
        let d = if l.indexer_compressed is Some { c + 1 } else { c };
        assert(t == l.tensors());
        assert(t[0] == PageTensor::Swa);
        assert(l.compressed is Some ==> t[a] == PageTensor::Compressed);
        assert(l.residual is Some ==> t[b] == PageTensor::Residual);
        assert(l.indexer_compressed is Some ==> t[c] == PageTensor::IndexerCompressed);
        assert(l.indexer_residual is Some ==> t[d] == PageTensor::IndexerResidual);
    }
}

/// A prefix may be reused exactly where it ends with block `b` (counted from
/// one), the table has that block, the pool has its page and the residual of
/// that page is frozen.
pub proof fn law_prefixes_are_reused_at_block_ends(pool: V4HybridPagePool, native_len: usize, table: &[u32], r: bool, b: int)
    requires
        pool.wf(),
        call_ensures(V4HybridPagePool::residual_frozen_at, (&pool, native_len, table), r),
        b > 0,
        256 * (b - 1) < native_len <= 256 * b,
    ensures
        r <==> native_len == 256 * b && b <= table@.len() && table@[b - 1] < pool.num_pages
            && pool.residual_frozen@[table@[b - 1] as int],
{
    assert((native_len - 1) / 256 == b - 1);
}

/// An update settles the flag of the page of block `b`, the one that holds the
/// last token: frozen at the end of the block, not frozen before. A mark only
/// ever freezes that page, and only at the end of the block. Clearing thaws one
/// page. All three leave the flags of other pages, and the pages themselves.
pub proof fn law_flags_follow_the_last_block(before: V4HybridPagePool, native_len: usize, table: &[u32], page: usize, b: int, p: int)
    requires
        before.wf(),
        256 * (b - 1) < native_len <= 256 * b,
        0 < b <= table@.len(),
        table@[b - 1] < before.num_pages,
        0 <= p < before.num_pages,
    ensures
        forall|s: &mut V4HybridPagePool, u: ()| *s == before && #[trigger] call_ensures(
            V4HybridPagePool::update_residual_freeze,
            (s, native_len, table),
            u,
        ) ==> {
            &&& final(s).residual_frozen@[table@[b - 1] as int] <==> native_len == 256 * b
            &&& p != table@[b - 1] ==> final(s).residual_frozen@[p] == before.residual_frozen@[p]
            &&& final(s).layers == before.layers && final(s).num_pages == before.num_pages
        },
        forall|s: &mut V4HybridPagePool, u: ()| *s == before && #[trigger] call_ensures(
            V4HybridPagePool::mark_residual_frozen,
            (s, native_len, table),
            u,
        ) ==> {
            &&& native_len == 256 * b ==> final(s).residual_frozen@[table@[b - 1] as int]
            &&& p != table@[b - 1] || native_len != 256 * b ==> final(s).residual_frozen@[p] == before.residual_frozen@[p]
            &&& final(s).layers == before.layers && final(s).num_pages == before.num_pages
        },
        forall|s: &mut V4HybridPagePool, u: ()| *s == before && #[trigger] call_ensures(
            V4HybridPagePool::clear_residual_frozen,
            (s, page),
            u,
        ) ==> {
            &&& p == page ==> !final(s).residual_frozen@[p]
            &&& p != page ==> final(s).residual_frozen@[p] == before.residual_frozen@[p]
            &&& final(s).layers == before.layers && final(s).num_pages == before.num_pages
        },
{
    assert((native_len - 1) / 256 == b - 1);
    assert(before.last_page(native_len as int, table@) == Some(table@[b - 1] as int));
}

/// Without the block of the last token, or its page, flags stay as they are.
pub proof fn law_missing_blocks_change_no_flag(before: V4HybridPagePool, native_len: usize, table: &[u32], b: int)
    requires
        before.wf(),
        native_len == 0 || (256 * (b - 1) < native_len <= 256 * b && (b > table@.len() || table@[b - 1] >= before.num_pages)),
    ensures
        forall|s: &mut V4HybridPagePool, u: ()| *s == before && #[trigger] call_ensures(
            V4HybridPagePool::update_residual_freeze,
            (s, native_len, table),
            u,
        ) ==> final(s).residual_frozen@ == before.residual_frozen@,
        forall|s: &mut V4HybridPagePool, u: ()| *s == before && #[trigger] call_ensures(
            V4HybridPagePool::mark_residual_frozen,
            (s, native_len, table),
            u,
        ) ==> final(s).residual_frozen@ == before.residual_frozen@,
{
    if native_len > 0 {
        assert((native_len - 1) / 256 == b - 1);
    }
    assert(before.last_page(native_len as int, table@) is None);
}

/// Where token rows go: the row at position `256 b + d` goes to row `d` of the
/// page of block `b`, which copies of a run reach together. Rows without a page
/// are left out, all others are copied, in order and once.
pub proof fn law_token_rows_go_to_their_blocks(
    pool: V4HybridPagePool,
    layer: usize,
    n: usize,
    positions: &[i64],
    table: &[u32],
    r: Result<Vec<PageWrite>, PoolError>,
    i: int,
    j: int,
    k: int,
    b: int,
    d: int,
)
    requires
        pool.wf(),
        call_ensures(V4HybridPagePool::write_swa_rows, (&pool, layer, n, positions, table), r),
        layer < pool.layers@.len(),
        n == positions@.len(),
        0 <= k < n,
    ensures
        r matches Ok(c) && {
            &&& 0 <= i < j < c@.len() ==> c@[i].src + c@[i].rows <= c@[j].src
            &&& 0 <= i < c@.len() && c@[i].src <= k < c@[i].src + c@[i].rows ==> {
                &&& positions@[k] >= 0
                &&& positions@[k] == 256 * b + d && 0 <= d < 256 ==> b < table@.len() && c@[i].page == table@[b] && c@[i].page
                    < pool.num_pages && c@[i].row + (k - c@[i].src) == d
                &&& c@[i].elem_offset == c@[i].row * pool.layers@[layer as int].head_dim
            }
            &&& positions@[k] == 256 * b + d && 0 <= d < 256 && 0 <= b < table@.len() && table@[b] < pool.num_pages
                ==> exists|m: int| 0 <= m < c@.len() && (#[trigger] c@[m]).src <= k < c@[m].src + c@[m].rows
            &&& 0 <= i < c@.len() ==> c@[i].rows > 0 && c@[i].src + c@[i].rows <= n
        },
{
    let index = V4HybridPagePool::indices(positions@);
    assert(index[k] == positions@[k]);
    let c = r->Ok_0@;
    let pages = pool.num_pages as int;
    assert(home_of(table@, pages, 256, index[k]) is Some || home_of(table@, pages, 256, index[k]) is None);
    if positions@[k] == 256 * b + d && 0 <= d < 256 {
        assert(positions@[k] as int / 256 == b && positions@[k] as int % 256 == d);
    }
    if 0 <= i < c.len() && c[i].src <= k < c[i].src + c[i].rows {
        assert(home_of(table@, pages, 256, index[k]) == Some((c[i].page as int, c[i].row + k - c[i].src)));
    }
}

/// Copies of rows run as far as they can: the next row is not the next of the
/// same page.
pub proof fn law_copies_of_rows_are_whole_runs(
    pool: V4HybridPagePool,
    layer: usize,
    n: usize,
    positions: &[i64],
    table: &[u32],
    r: Result<Vec<PageWrite>, PoolError>,
    i: int,
)
    requires
        pool.wf(),
        call_ensures(V4HybridPagePool::write_swa_rows, (&pool, layer, n, positions, table), r),
        layer < pool.layers@.len(),
        n == positions@.len(),
        0 <= i < r->Ok_0@.len(),
        r->Ok_0@[i].src + r->Ok_0@[i].rows < n,
    ensures
        ({
            let e = r->Ok_0@[i].src + r->Ok_0@[i].rows;
            positions@[e] != positions@[e - 1] + 1 || positions@[e] as int % 256 == 0
        }),
{
    let index = V4HybridPagePool::indices(positions@);
    let e = r->Ok_0@[i].src + r->Ok_0@[i].rows;
    assert(index[e] == positions@[e] && index[e - 1] == positions@[e - 1]);
}

/// Writes are refused exactly where rows and positions differ in number.
pub proof fn law_rows_need_positions(
    pool: V4HybridPagePool,
    layer: usize,
    n: usize,
    positions: &[i64],
    table: &[u32],
    r: Result<Vec<PageWrite>, PoolError>,
)
    requires
        pool.wf(),
        call_ensures(V4HybridPagePool::write_swa_rows, (&pool, layer, n, positions, table), r),
    ensures
        r is Err <==> layer < pool.layers@.len() && n != positions@.len(),
        layer >= pool.layers@.len() ==> (r matches Ok(c) && c@.len() == 0),
        r matches Err(e) ==> (e matches PoolError::LengthMismatch { kv, pos } && kv == n && pos == positions@.len()),
{
    assert(positions.len() == positions@.len());
}

/// Compressed row `per b + d` goes to row `d` of the page of block `b`, where a
/// page holds `per` rows: as many whole compression blocks as a native block
/// has.
pub proof fn law_compressed_rows_go_to_their_blocks(
    pool: V4HybridPagePool,
    layer: usize,
    n: usize,
    first_row: usize,
    table: &[u32],
    r: Vec<PageWrite>,
    per: int,
    i: int,
    j: int,
    k: int,
    b: int,
    d: int,
)
    requires
        pool.wf(),
        first_row + n <= usize::MAX,
        layer < pool.layers@.len(),
        pool.layers@[layer as int].compressed is Some,
        per * pool.layers@[layer as int].compress_ratio <= 256 < (per + 1) * pool.layers@[layer as int].compress_ratio,
        per > 0,
        call_ensures(V4HybridPagePool::write_compressed_rows, (&pool, layer, n, first_row, table), r),
        0 <= k < n,
        first_row + k == per * b + d,
        0 <= d < per,
    ensures
        0 <= i < j < r@.len() ==> r@[i].src + r@[i].rows <= r@[j].src,
        0 <= i < r@.len() && r@[i].src <= k < r@[i].src + r@[i].rows ==> b < table@.len() && r@[i].page == table@[b] && r@[i].page
            < pool.num_pages && r@[i].row + (k - r@[i].src) == d && r@[i].elem_offset == r@[i].row
            * pool.layers@[layer as int].head_dim,
        b < table@.len() && table@[b] < pool.num_pages ==> exists|m: int|
            0 <= m < r@.len() && (#[trigger] r@[m]).src <= k < r@[m].src + r@[m].rows,
        0 <= i < r@.len() ==> r@[i].rows > 0 && r@[i].src + r@[i].rows <= n,
{
    let l = pool.layers@[layer as int];
    assert(l.wf());
    lemma_rows_per_page(l, per);
    lemma_block_and_row(first_row + k, per, b, d);
    let index = Seq::new(n as nat, |i: int| first_row + i);
    assert(index[k] == first_row + k);
    let pages = pool.num_pages as int;
    assert(home_of(table@, pages, per, index[k]) is Some || home_of(table@, pages, per, index[k]) is None);
    if 0 <= i < r@.len() && r@[i].src <= k < r@[i].src + r@[i].rows {
        assert(home_of(table@, pages, per, index[k]) == Some((r@[i].page as int, r@[i].row + k - r@[i].src)));
    }
}

proof fn lemma_rows_per_page(l: V4LayerPages, per: int)
    requires
        l.compress_ratio > 0,
        per * l.compress_ratio <= 256 < (per + 1) * l.compress_ratio,
    ensures
        l.rows_per_page() == per,
{
    let c = l.compress_ratio as int;
    assert((per + 1) * c == per * c + c) by (nonlinear_arith);
    lemma_fundamental_div_mod_converse(256, c, per, 256 - per * c);
}

proof fn lemma_block_and_row(x: int, per: int, b: int, d: int)
    requires
        x >= 0,
        x == per * b + d,
        0 <= d < per,
    ensures
        x / per == b,
        x % per == d,
        b >= 0,
{
    lemma_mul_is_commutative(per, b);
    lemma_fundamental_div_mod_converse(x, per, b, d);
    lemma_div_pos_is_pos(x, per);
}

/// Where a gather brings the token at position `256 b + d`: from row `d` of the
/// page of block `b` to the slot that is its remainder by the window. It brings
/// the last tokens that fit the window and no others.
pub proof fn law_gather_brings_the_window(
    pool: V4HybridPagePool,
    layer: usize,
    window: usize,
    rows: usize,
    len: usize,
    table: &[u32],
    r: GatherPlan,
    i: int,
    j: int,
    k: int,
    b: int,
    d: int,
)
    requires
        pool.wf(),
        window > 0,
        layer < pool.layers@.len(),
        call_ensures(V4HybridPagePool::gather_sparse_into, (&pool, layer, window, rows, len, table), r),
        k == 256 * b + d,
        0 <= d < 256,
        0 <= b,
    ensures
        len == 0 ==> r.window@.len() == 0 && r.compressed@.len() == 0,
        0 <= i < j < r.window@.len() ==> r.window@[i].abs + r.window@[i].rows <= r.window@[j].abs,
        0 <= i < r.window@.len() && r.window@[i].abs <= k < r.window@[i].abs + r.window@[i].rows ==> {
            let c = r.window@[i];
            &&& len <= k + window && k < len
            &&& b < table@.len() && c.page == table@[b] && c.page < pool.num_pages
            &&& c.row + (k - c.abs) == d
            &&& c.slot + (k - c.abs) == k % (window as int)
            &&& c.elem_offset == c.slot * pool.layers@[layer as int].head_dim
        },
        len <= k + window && k < len && b < table@.len() && table@[b] < pool.num_pages ==> exists|m: int|
            0 <= m < r.window@.len() && (#[trigger] r.window@[m]).abs <= k < r.window@[m].abs + r.window@[m].rows,
{
    lemma_block_and_row(k, 256, b, d);
    let pages = pool.num_pages as int;
    assert(home_of(table@, pages, 256, k) is Some || home_of(table@, pages, 256, k) is None);
    if 0 <= i < r.window@.len() && r.window@[i].abs <= k < r.window@[i].abs + r.window@[i].rows {
        let c = r.window@[i];
        assert(len > 0);
        assert(home_of(table@, pages, 256, k) == Some((c.page as int, c.row + k - c.abs)));
        assert(slot_of(true, window as int, k) == c.slot + k - c.abs);
    }
}

/// Where a gather brings compressed row `per b + d`: from row `d` of the page of
/// block `b` to its own place behind the window.
pub proof fn law_gather_brings_the_compressed_rows(
    pool: V4HybridPagePool,
    layer: usize,
    window: usize,
    rows: usize,
    len: usize,
    table: &[u32],
    r: GatherPlan,
    per: int,
    i: int,
    j: int,
    k: int,
    b: int,
    d: int,
)
    requires
        pool.wf(),
        layer < pool.layers@.len(),
        len > 0,
        call_ensures(V4HybridPagePool::gather_sparse_into, (&pool, layer, window, rows, len, table), r),
        pool.layers@[layer as int].compressed is Some ==> per * pool.layers@[layer as int].compress_ratio <= 256 < (per + 1)
            * pool.layers@[layer as int].compress_ratio,
        k == per * b + d,
        0 <= d < per,
        0 <= k,
    ensures
        pool.layers@[layer as int].compressed is None ==> r.compressed@.len() == 0,
        0 <= i < j < r.compressed@.len() ==> r.compressed@[i].abs + r.compressed@[i].rows <= r.compressed@[j].abs,
        0 <= i < r.compressed@.len() && r.compressed@[i].abs <= k < r.compressed@[i].abs + r.compressed@[i].rows ==> {
            let c = r.compressed@[i];
            &&& k < rows
            &&& b < table@.len() && c.page == table@[b] && c.page < pool.num_pages
            &&& c.row + (k - c.abs) == d
            &&& c.slot + (k - c.abs) == window + k
            &&& c.elem_offset == c.slot * pool.layers@[layer as int].head_dim
        },
        pool.layers@[layer as int].compressed is Some && k < rows && b < table@.len() && table@[b] < pool.num_pages ==> exists|m: int|
            0 <= m < r.compressed@.len() && (#[trigger] r.compressed@[m]).abs <= k < r.compressed@[m].abs + r.compressed@[m].rows,
{
    let l = pool.layers@[layer as int];
    assert(l.wf());
    if l.compressed is Some {
        lemma_rows_per_page(l, per);
        lemma_block_and_row(k, per, b, d);
        let pages = pool.num_pages as int;
        assert(home_of(table@, pages, per, k) is Some || home_of(table@, pages, per, k) is None);
        if 0 <= i < r.compressed@.len() && r.compressed@[i].abs <= k < r.compressed@[i].abs + r.compressed@[i].rows {
            let c = r.compressed@[i];
            assert(home_of(table@, pages, per, k) == Some((c.page as int, c.row + k - c.abs)));
            assert(slot_of(false, window as int, k) == c.slot + k - c.abs);
        }
    }
}

/// A residual is saved to, and loaded from, the page of block `b`, the one that
/// holds the last token; what is saved of a state whose halves fill the rows of
/// the page is loaded back with the same width.
pub proof fn law_residuals_live_in_the_last_block(
    pool: V4HybridPagePool,
    layer: usize,
    kv: (usize, usize),
    score: (usize, usize),
    native_len: usize,
    table: &[u32],
    indexer: bool,
    saved: Result<Option<ResidualCopy>, PoolError>,
    loaded: Option<ResidualCopy>,
    b: int,
)
    requires
        pool.wf(),
        b > 0,
        256 * (b - 1) < native_len <= 256 * b,
        kv.1 + score.1 <= usize::MAX,
        2 * kv.1 <= usize::MAX,
        layer < pool.layers@.len(),
        call_ensures(V4HybridPagePool::save_residual_from_state, (&pool, layer, kv, score, native_len, table, indexer), saved),
        call_ensures(V4HybridPagePool::load_residual_into_state, (&pool, layer, kv, native_len, table, indexer), loaded),
    ensures
        ({
            let l = pool.layers@[layer as int];
            let pages = if indexer { l.indexer_residual } else { l.residual };
            let there = pages is Some && b <= table@.len() && table@[b - 1] < pool.num_pages;
            &&& saved matches Ok(Some(c)) ==> {
                &&& there && c.page == table@[b - 1]
                &&& 0 < c.rows <= l.residual_window && c.rows <= kv.0 && c.rows <= score.0 && (c.rows == l.residual_window || c.rows == kv.0)
                &&& c.width == kv.1 && kv.1 + score.1 == pages->0.width
            }
            &&& there && l.residual_window > 0 && kv.0 > 0 && score.0 >= kv.0 && kv.1 + score.1 == pages->0.width
                ==> (saved matches Ok(Some(_)))
            &&& saved matches Err(e) ==> there && (e matches PoolError::ScoreRows { have, want } && have == score.0 && have < want && want <= kv.0)
            &&& there && l.residual_window <= kv.0 && score.0 < l.residual_window ==> saved is Err
            &&& loaded is Some <==> there && l.residual_window > 0 && kv.0 > 0 && pages->0.width == kv.1 + kv.1
            &&& loaded matches Some(c) ==> c.page == table@[b - 1] && c.rows == pages->0.rows && c.width == kv.1
        }),
{
    assert((native_len - 1) / 256 == b - 1);
}

/// A pool needs a page; a new one has a layer for each specification, with as
/// many pages, and no page of it is frozen.
pub proof fn law_new_pools_are_thawed(specs: &[V4LayerCacheSpec], num_pages: usize, r: Result<V4HybridPagePool, PoolError>, i: int, p: int)
    requires
        call_ensures(V4HybridPagePool::new, (specs, num_pages), r),
        0 <= i < specs@.len(),
        0 <= p < num_pages,
    ensures
        r matches Ok(pool) && {
            &&& pool.num_pages == num_pages && pool.layers@.len() == specs@.len() && pool.native_block_size == 256
            &&& pool.residual_frozen@.len() == num_pages && !pool.residual_frozen@[p]
            &&& pool.layers@[i].compress_ratio == specs@[i].compress_ratio && pool.layers@[i].head_dim == specs@[i].head_dim
            &&& pool.layers@[i].swa.pages == num_pages
        },
{
}

/// A page that exists is cleared in every tensor that the layer has, the window
/// among them; one that does not exist is cleared in none.
pub proof fn law_pages_are_cleared_in_all_tensors(l: V4LayerPages, page: usize, r: Vec<PageTensor>)
    requires
        call_ensures(V4LayerPages::zero_page, (&l, page), r),
    ensures
        page >= l.swa.pages ==> r@.len() == 0,
        page < l.swa.pages ==> {
            &&& r@.contains(PageTensor::Swa)
            &&& r@.contains(PageTensor::Compressed) <==> l.compressed is Some
            &&& r@.contains(PageTensor::Residual) <==> l.residual is Some
            &&& r@.contains(PageTensor::IndexerCompressed) <==> l.indexer_compressed is Some
            &&& r@.contains(PageTensor::IndexerResidual) <==> l.indexer_residual is Some
        },
{
    if page < l.swa.pages {
        let c = if l.compressed is Some { 1int } else { 0 };
        let d = if l.residual is Some { c + 1 } else { c };
        let e = if l.indexer_compressed is Some { d + 1 } else { d };
        assert(r@[0] == PageTensor::Swa);
        if l.compressed is Some {
            assert(r@[1] == PageTensor::Compressed);
        }
        if l.residual is Some {
            assert(r@[c + 1] == PageTensor::Residual);
        }
        if l.indexer_compressed is Some {
            assert(r@[d + 1] == PageTensor::IndexerCompressed);
        }
        if l.indexer_residual is Some {
            assert(r@[e + 1] == PageTensor::IndexerResidual);
        }
    }
}

/// A layer is found by its index, where there is one.
pub proof fn law_layers_are_found_by_index(p: V4HybridPagePool, idx: usize, r: Option<&V4LayerPages>)
    requires
        call_ensures(V4HybridPagePool::layer, (&p, idx), r),
    ensures
        r is None <==> idx >= p.layers@.len(),
        r matches Some(l) ==> *l == p.layers@[idx as int],
{
}

} // verus!
