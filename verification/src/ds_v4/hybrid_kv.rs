//! Cache specifications of the hybrid layers.
//!
//! The logical unit is a native block of token positions. Residuals of the
//! compressor are kept as pages with a window of `coff * compress_ratio`
//! packed rows.

use crate::math::{lemma_sum_prefix, lemma_sum_step, sum};
use vstd::prelude::*;

verus! {

/// Token positions in one native block.
pub const V4_NATIVE_BLOCK_SIZE: usize = 256;

/// The kinds of cache that a layer may keep.
#[derive(Debug, Clone, Copy, PartialEq, Eq, Structural)]
pub enum V4CacheKind {
    /// Token rows of the sliding window, kept by every layer.
    Swa,
    /// Compressed rows at ratio 4.
    C4,
    /// Compressed rows at ratio 128.
    C128,
    /// Residual of the compressor.
    CompressorResidual,
    /// Compressed rows of the indexer, at ratio 4 only.
    IndexerCompressed,
    /// Residual of the indexer, at ratio 4 only.
    IndexerResidual,
}

/// What one layer keeps in the cache.
#[derive(Debug, Clone, Copy)]
pub struct V4LayerCacheSpec {
    pub layer_idx: usize,
    pub compress_ratio: usize,
    pub sliding_window: usize,
    pub head_dim: usize,
    pub index_head_dim: Option<usize>,
    /// Rows of one residual page.
    pub residual_window: usize,
}

impl V4LayerCacheSpec {
    /// 2 where consecutive compression blocks overlap, else 1.
    pub open spec fn overlap_factor(self) -> nat {
        if self.compress_ratio == 4 { 2 } else { 1 }
    }

    /// Width of a packed residual row: key-value half, then score half.
    pub open spec fn packed_width(self) -> nat {
        2 * (self.overlap_factor() * self.head_dim as nat)
    }

    /// Width of an indexer row.
    pub open spec fn index_width(self) -> nat {
        match self.index_head_dim {
            Some(d) => d as nat,
            None => 128,
        }
    }

    /// The kinds of cache that the layer keeps, in the order of their pages.
    pub open spec fn cache_kinds(self) -> Seq<V4CacheKind> {
        if self.compress_ratio == 4 {
            if self.index_head_dim is Some {
                seq![
                    V4CacheKind::Swa,
                    V4CacheKind::C4,
                    V4CacheKind::CompressorResidual,
                    V4CacheKind::IndexerCompressed,
                    V4CacheKind::IndexerResidual,
                ]
            } else {
                seq![V4CacheKind::Swa, V4CacheKind::C4, V4CacheKind::CompressorResidual]
            }
        } else if self.compress_ratio == 128 {
            seq![V4CacheKind::Swa, V4CacheKind::C128, V4CacheKind::CompressorResidual]
        } else {
            seq![V4CacheKind::Swa]
        }
    }

    /// Compressed rows that one native block gives.
    pub open spec fn compressed_rows(self) -> nat {
        if self.compress_ratio == 0 {
            0
        } else {
            (V4_NATIVE_BLOCK_SIZE / self.compress_ratio) as nat
        }
    }

    /// Rows of one page of `kind`.
    pub open spec fn page_rows(self, kind: V4CacheKind) -> nat {
        match kind {
            V4CacheKind::Swa => V4_NATIVE_BLOCK_SIZE as nat,
            V4CacheKind::C4 | V4CacheKind::C128 | V4CacheKind::IndexerCompressed =>
                self.compressed_rows(),
            V4CacheKind::CompressorResidual | V4CacheKind::IndexerResidual =>
                self.residual_window as nat,
        }
    }

    /// Bytes of one row of `kind`: two bytes an element in token, compressed
    /// and indexer rows, four in residual rows.
    pub open spec fn row_bytes(self, kind: V4CacheKind) -> nat {
        match kind {
            V4CacheKind::Swa | V4CacheKind::C4 | V4CacheKind::C128 => self.head_dim as nat * 2,
            V4CacheKind::IndexerCompressed => self.index_width() * 2,
            V4CacheKind::CompressorResidual => self.packed_width() * 4,
            V4CacheKind::IndexerResidual => 2 * 2 * self.index_width() * 4,
        }
    }

    /// Bytes of one page of `kind`.
    pub open spec fn page_bytes(self, kind: V4CacheKind) -> nat {
        self.page_rows(kind) * self.row_bytes(kind)
    }

    /// Bytes of each page of one native block.
    pub open spec fn all_page_bytes(self) -> Seq<nat> {
        self.cache_kinds().map_values(|k: V4CacheKind| self.page_bytes(k))
    }

    pub fn new(
        layer_idx: usize,
        compress_ratio: usize,
        sliding_window: usize,
        head_dim: usize,
        index_head_dim: Option<usize>,
        is_overlap: bool,
    ) -> (r: Self)
        requires
            is_overlap ==> 2 * compress_ratio <= usize::MAX,
        ensures
            r.layer_idx == layer_idx,
            r.compress_ratio == compress_ratio,
            r.sliding_window == sliding_window,
            r.head_dim == head_dim,
            r.index_head_dim == index_head_dim,
            r.residual_window == (if is_overlap { 2 * compress_ratio } else { compress_ratio as int }),
    {
        let coff: usize = if is_overlap { 2 } else { 1 };
        let residual_window: usize = if compress_ratio > 0 { coff * compress_ratio } else { 0 };
        Self { layer_idx, compress_ratio, sliding_window, head_dim, index_head_dim, residual_window }
    }

    pub fn coff(&self) -> (r: usize)
        ensures
            r == self.overlap_factor(),
    {
        if self.compress_ratio == 4 { 2 } else { 1 }
    }

    /// Width of one residual half.
    pub fn residual_state_width(&self) -> (r: usize)
        requires
            self.overlap_factor() * self.head_dim <= usize::MAX,
        ensures
            r == self.overlap_factor() * self.head_dim,
    {
        self.coff() * self.head_dim
    }

    /// Width of a packed residual row.
    pub fn packed_residual_dim(&self) -> (r: usize)
        requires
            self.packed_width() <= usize::MAX,
        ensures
            r == self.packed_width(),
    {
        2 * self.residual_state_width()
    }

    pub fn kinds(&self) -> (r: Vec<V4CacheKind>)
        ensures
            r@ == self.cache_kinds(),
    {
        let mut kinds = Vec::new();
        kinds.push(V4CacheKind::Swa);
        if self.compress_ratio == 4 {
            kinds.push(V4CacheKind::C4);
            kinds.push(V4CacheKind::CompressorResidual);
            if self.index_head_dim.is_some() {
                kinds.push(V4CacheKind::IndexerCompressed);
                kinds.push(V4CacheKind::IndexerResidual);
            }
        } else if self.compress_ratio == 128 {
            kinds.push(V4CacheKind::C128);
            kinds.push(V4CacheKind::CompressorResidual);
        }
        kinds
    }

    /// Compressed entries stored per native block.
    pub fn compressed_entries_per_native_block(&self) -> (r: usize)
        ensures
            r == self.compressed_rows(),
    {
        if self.compress_ratio == 0 {
            0
        } else {
            V4_NATIVE_BLOCK_SIZE / self.compress_ratio
        }
    }

    pub fn entries_per_page(&self, kind: V4CacheKind) -> (r: usize)
        ensures
            r == self.page_rows(kind),
    {
        match kind {
            V4CacheKind::Swa => V4_NATIVE_BLOCK_SIZE,
            V4CacheKind::C4 | V4CacheKind::C128 | V4CacheKind::IndexerCompressed =>
                self.compressed_entries_per_native_block(),
            V4CacheKind::CompressorResidual | V4CacheKind::IndexerResidual =>
                self.residual_window,
        }
    }

    pub fn page_row_bytes(&self, kind: V4CacheKind) -> (r: usize)
        requires
            self.row_bytes(kind) <= usize::MAX,
        ensures
            r == self.row_bytes(kind),
    {
        match kind {
            V4CacheKind::Swa | V4CacheKind::C4 | V4CacheKind::C128 => self.head_dim * 2,
            V4CacheKind::IndexerCompressed => {
                let dim: usize = match self.index_head_dim { Some(d) => d, None => 128 };
                dim * 2
            },
            V4CacheKind::CompressorResidual => self.packed_residual_dim() * 4,
            V4CacheKind::IndexerResidual => {
                let dim: usize = match self.index_head_dim { Some(d) => d, None => 128 };
                let packed: usize = 2 * 2 * dim;
                packed * 4
            },
        }
    }

    pub fn page_size_bytes(&self, kind: V4CacheKind) -> (r: usize)
        requires
            self.row_bytes(kind) <= usize::MAX,
            self.page_bytes(kind) <= usize::MAX,
        ensures
            r == self.page_bytes(kind),
    {
        self.entries_per_page(kind) * self.page_row_bytes(kind)
    }

    /// Whether the sizes of all pages of a native block can be counted in `usize`.
    pub open spec fn sizes_fit(self) -> bool {
        &&& forall|k: V4CacheKind| #[trigger] self.cache_kinds().contains(k) ==> self.row_bytes(k) <= usize::MAX
        &&& sum(self.all_page_bytes()) <= usize::MAX
    }

    /// Bytes of one native block over all kinds of this layer.
    pub fn native_page_bytes(&self) -> (r: usize)
        requires
            self.sizes_fit(),
        ensures
            r == sum(self.all_page_bytes()),
    {
        let kinds = self.kinds();
        let mut total: usize = 0;
        let mut i: usize = 0;
        let ghost sizes = self.all_page_bytes();
        while i < kinds.len()
            invariant
                i <= kinds@.len(),
                kinds@ == self.cache_kinds(),
                sizes == self.all_page_bytes(),
                self.sizes_fit(),
                total == sum(sizes.take(i as int)),
            decreases kinds@.len() - i,
        {
            proof {
                assert(self.cache_kinds().contains(kinds@[i as int]));
                lemma_sum_step(sizes, i as int);
                lemma_sum_prefix(sizes, i as int + 1);
                lemma_sum_prefix(sizes, i as int);
            }
            total = total + self.page_size_bytes(kinds[i]);
            i = i + 1;
        }
        assert(sizes.take(i as int) =~= sizes);
        total
    }
}

/// The specification of layer `i` whose compression ratio is `ratio`.
pub open spec fn layer_cache_spec(
    i: int,
    ratio: usize,
    sliding_window: usize,
    head_dim: usize,
    index_head_dim: usize,
) -> V4LayerCacheSpec {
    V4LayerCacheSpec {
        layer_idx: i as usize,
        compress_ratio: ratio,
        sliding_window,
        head_dim,
        index_head_dim: if ratio == 4 { Some(index_head_dim) } else { None },
        residual_window: if ratio == 4 { 8 } else { ratio },
    }
}

/// The specifications of all layers, from their compression ratios.
pub fn build_v4_cache_specs(
    compress_ratios: &[usize],
    sliding_window: usize,
    head_dim: usize,
    index_head_dim: usize,
) -> (r: Vec<V4LayerCacheSpec>)
    ensures
        r@ == Seq::new(
            compress_ratios@.len(),
            |i: int| layer_cache_spec(i, compress_ratios@[i], sliding_window, head_dim, index_head_dim),
        ),
{
    let mut specs = Vec::new();
    let mut i: usize = 0;
    while i < compress_ratios.len()
        invariant
            i <= compress_ratios@.len(),
            specs@.len() == i,
            forall|j: int|
                0 <= j < i ==> #[trigger] specs@[j] == layer_cache_spec(
                    j, compress_ratios@[j], sliding_window, head_dim, index_head_dim,
                ),
        decreases compress_ratios@.len() - i,
    {
        let ratio: usize = compress_ratios[i];
        let idx_dim = if ratio == 4 { Some(index_head_dim) } else { None };
        specs.push(V4LayerCacheSpec::new(i, ratio, sliding_window, head_dim, idx_dim, ratio == 4));
        i = i + 1;
    }
    specs
}

/// Bytes of one native block of each layer.
pub open spec fn layer_bytes(specs: Seq<V4LayerCacheSpec>) -> Seq<nat> {
    specs.map_values(|s: V4LayerCacheSpec| sum(s.all_page_bytes()))
}

/// Bytes of one native block over all layers.
pub fn v4_bytes_per_native_page(specs: &[V4LayerCacheSpec]) -> (r: usize)
    requires
        forall|i: int| 0 <= i < specs@.len() ==> (#[trigger] specs@[i]).sizes_fit(),
        sum(layer_bytes(specs@)) <= usize::MAX,
    ensures
        r == sum(layer_bytes(specs@)),
{
    let mut total: usize = 0;
    let mut i: usize = 0;
    let ghost sizes = layer_bytes(specs@);
    while i < specs.len()
        invariant
            i <= specs@.len(),
            sizes == layer_bytes(specs@),
            forall|i: int| 0 <= i < specs@.len() ==> (#[trigger] specs@[i]).sizes_fit(),
            sum(sizes) <= usize::MAX,
            total == sum(sizes.take(i as int)),
        decreases specs@.len() - i,
    {
        proof {
            lemma_sum_step(sizes, i as int);
            lemma_sum_prefix(sizes, i as int + 1);
        }
        total = total + specs[i].native_page_bytes();
        i = i + 1;
    }
    assert(sizes.take(i as int) =~= sizes);
    total
}

/// The last native block boundary at or before `tokens`.
pub open spec fn native_floor(tokens: int) -> int {
    tokens / (V4_NATIVE_BLOCK_SIZE as int) * V4_NATIVE_BLOCK_SIZE
}

/// Aligns a token count down to a native block boundary.
pub fn align_native_block(tokens: usize) -> (r: usize)
    ensures
        r == native_floor(tokens as int),
{
    tokens / V4_NATIVE_BLOCK_SIZE * V4_NATIVE_BLOCK_SIZE
}

/// Alignment gives the nearest boundary below, changes nothing when repeated
/// and keeps the order of lengths.
pub proof fn law_align_is_a_floor(a: nat, b: nat)
    requires
        a <= b,
    ensures
        native_floor(a as int) % (V4_NATIVE_BLOCK_SIZE as int) == 0,
        native_floor(a as int) <= a < native_floor(a as int) + V4_NATIVE_BLOCK_SIZE,
        native_floor(native_floor(a as int)) == native_floor(a as int),
        native_floor(a as int) <= native_floor(b as int),
{
}

/// A residual has a row for each token of a block, or of two where blocks
/// overlap, and packed rows of two halves, each as wide as a head for each such
/// block.
pub proof fn law_residuals_hold_blocks(
    layer_idx: usize,
    ratio: usize,
    window: usize,
    head_dim: usize,
    index: Option<usize>,
    is_overlap: bool,
    r: V4LayerCacheSpec,
    coff: usize,
    half: usize,
    packed: usize,
)
    requires
        call_ensures(V4LayerCacheSpec::new, (layer_idx, ratio, window, head_dim, index, is_overlap), r),
        call_ensures(V4LayerCacheSpec::coff, (&r,), coff),
        call_ensures(V4LayerCacheSpec::residual_state_width, (&r,), half),
        call_ensures(V4LayerCacheSpec::packed_residual_dim, (&r,), packed),
    ensures
        r.layer_idx == layer_idx && r.compress_ratio == ratio && r.sliding_window == window && r.head_dim == head_dim
            && r.index_head_dim == index,
        is_overlap ==> r.residual_window == ratio + ratio,
        !is_overlap ==> r.residual_window == ratio,
        ratio == 4 ==> coff == 2 && half == head_dim + head_dim,
        ratio != 4 ==> coff == 1 && half == head_dim,
        packed == half + half,
{
    lemma_small_products(head_dim as int);
}

proof fn lemma_small_products(n: int)
    ensures
        1 * n == n,
        2 * n == n + n,
{
}

/// All layers keep token rows; those that compress keep compressed rows and a
/// residual; only those at ratio 4 with an indexer keep rows and a residual of
/// the indexer. No kind is kept twice.
pub proof fn law_kinds_follow_the_ratio(s: V4LayerCacheSpec, r: Vec<V4CacheKind>, i: int, j: int)
    requires
        call_ensures(V4LayerCacheSpec::kinds, (&s,), r),
    ensures
        r@.len() > 0 && r@[0] == V4CacheKind::Swa,
        r@.contains(V4CacheKind::C4) <==> s.compress_ratio == 4,
        r@.contains(V4CacheKind::C128) <==> s.compress_ratio == 128,
        r@.contains(V4CacheKind::CompressorResidual) <==> s.compress_ratio == 4 || s.compress_ratio == 128,
        r@.contains(V4CacheKind::IndexerCompressed) <==> s.compress_ratio == 4 && s.index_head_dim is Some,
        r@.contains(V4CacheKind::IndexerResidual) <==> s.compress_ratio == 4 && s.index_head_dim is Some,
        0 <= i < j < r@.len() ==> r@[i] != r@[j],
{
    let k = r@;
    if s.compress_ratio == 4 {
        assert(k[1] == V4CacheKind::C4 && k[2] == V4CacheKind::CompressorResidual);
        if s.index_head_dim is Some {
            assert(k[3] == V4CacheKind::IndexerCompressed && k[4] == V4CacheKind::IndexerResidual);
        }
    } else if s.compress_ratio == 128 {
        assert(k[1] == V4CacheKind::C128 && k[2] == V4CacheKind::CompressorResidual);
    }
}

/// A page holds a native block: a row for each of its 256 tokens, or a row for
/// each whole compression block of them, or the window of the residual.
pub proof fn law_a_page_holds_a_native_block(
    s: V4LayerCacheSpec,
    kind: V4CacheKind,
    rows: usize,
    row: usize,
    page: usize,
    per: usize,
)
    requires
        call_ensures(V4LayerCacheSpec::entries_per_page, (&s, kind), rows),
        call_ensures(V4LayerCacheSpec::page_row_bytes, (&s, kind), row),
        call_ensures(V4LayerCacheSpec::page_size_bytes, (&s, kind), page),
        call_ensures(V4LayerCacheSpec::compressed_entries_per_native_block, (&s,), per),
    ensures
        s.compress_ratio == 0 ==> per == 0,
        s.compress_ratio > 0 ==> per * s.compress_ratio <= 256 < (per + 1) * s.compress_ratio,
        kind == V4CacheKind::Swa ==> rows == 256 && row == 2 * s.head_dim,
        kind == V4CacheKind::C4 || kind == V4CacheKind::C128 ==> rows == per && row == 2 * s.head_dim,
        kind == V4CacheKind::IndexerCompressed ==> rows == per,
        kind == V4CacheKind::CompressorResidual || kind == V4CacheKind::IndexerResidual ==> rows == s.residual_window,
        kind == V4CacheKind::CompressorResidual && s.compress_ratio == 4 ==> row == 16 * s.head_dim,
        kind == V4CacheKind::CompressorResidual && s.compress_ratio != 4 ==> row == 8 * s.head_dim,
        kind == V4CacheKind::IndexerCompressed ==> (s.index_head_dim matches Some(d) ==> row == 2 * d) && (s.index_head_dim is None
            ==> row == 256),
        kind == V4CacheKind::IndexerResidual ==> (s.index_head_dim matches Some(d) ==> row == 16 * d) && (s.index_head_dim is None
            ==> row == 2048),
        page == rows * row,
{
    let w = s.index_width();
    assert(2 * 2 * w * 4 == 16 * w) by (nonlinear_arith);
    if s.compress_ratio > 0 {
        vstd::arithmetic::div_mod::lemma_fundamental_div_mod(256, s.compress_ratio as int);
        vstd::arithmetic::mul::lemma_mul_is_commutative(s.compress_ratio as int, per as int);
        assert((per + 1) * s.compress_ratio == per * s.compress_ratio + s.compress_ratio) by (nonlinear_arith);
    }
}

/// A native block takes the bytes of its pages, one of each kind that the layer
/// keeps.
pub proof fn law_native_blocks_take_the_bytes_of_their_pages(s: V4LayerCacheSpec, r: usize)
    requires
        call_ensures(V4LayerCacheSpec::native_page_bytes, (&s,), r),
    ensures
        s.compress_ratio != 4 && s.compress_ratio != 128 ==> r == 256 * (s.head_dim * 2),
        s.compress_ratio == 128 ==> r == 256 * (s.head_dim * 2) + 2 * (s.head_dim * 2) + s.residual_window * (s.head_dim * 8),
        s.compress_ratio == 4 && s.index_head_dim is None ==> r == 256 * (s.head_dim * 2) + 64 * (s.head_dim * 2)
            + s.residual_window * (s.head_dim * 16),
        s.compress_ratio == 4 ==> (s.index_head_dim matches Some(d) ==> r == 256 * (s.head_dim * 2) + 64 * (s.head_dim * 2)
            + s.residual_window * (s.head_dim * 16) + 64 * (d * 2) + s.residual_window * (d * 16)),
{
    let sizes = s.all_page_bytes();
    let kinds = s.cache_kinds();
    reveal_with_fuel(sum, 6);
    assert forall|i: int| 0 <= i < kinds.len() implies sizes[i] == s.page_bytes(kinds[i]) by {}
    assert(sizes.len() == kinds.len());
    if s.compress_ratio == 4 {
        assert(s.row_bytes(V4CacheKind::CompressorResidual) == s.head_dim * 16);
        if s.index_head_dim is Some {
            assert(sum(sizes) == sizes[0] + sizes[1] + sizes[2] + sizes[3] + sizes[4]);
            let w = s.index_width();
            assert(2 * 2 * w * 4 == w * 16) by (nonlinear_arith);
            assert(s.row_bytes(V4CacheKind::IndexerResidual) == s.index_head_dim->0 * 16);
        } else {
            assert(sum(sizes) == sizes[0] + sizes[1] + sizes[2]);
        }
    } else if s.compress_ratio == 128 {
        assert(s.row_bytes(V4CacheKind::CompressorResidual) == s.head_dim * 8);
        assert(sum(sizes) == sizes[0] + sizes[1] + sizes[2]);
    } else {
        assert(sum(sizes) == sizes[0]);
    }
}

/// Layers keep their order and their ratios; only those at ratio 4 have an
/// indexer and residuals of two blocks.
pub proof fn law_layers_are_specified_by_their_ratios(ratios: &[usize], window: usize, head_dim: usize, index: usize, r: Vec<V4LayerCacheSpec>, i: int)
    requires
        call_ensures(build_v4_cache_specs, (ratios, window, head_dim, index), r),
        0 <= i < ratios@.len(),
    ensures
        r@.len() == ratios@.len(),
        ({
            let s = r@[i];
            &&& s.layer_idx == i && s.compress_ratio == ratios@[i] && s.sliding_window == window && s.head_dim == head_dim
            &&& s.index_head_dim is Some <==> ratios@[i] == 4
            &&& s.index_head_dim matches Some(d) ==> d == index
            &&& ratios@[i] == 4 ==> s.residual_window == 8
            &&& ratios@[i] != 4 ==> s.residual_window == ratios@[i]
        }),
{
    assert(ratios.len() == ratios@.len());
}

/// The bytes of two lists of layers add up, and those of one layer are those of
/// its native block.
pub proof fn law_bytes_of_layers_add_up(
    first: &[V4LayerCacheSpec],
    all: &[V4LayerCacheSpec],
    last: V4LayerCacheSpec,
    a: usize,
    b: usize,
    c: usize,
)
    requires
        all@ == first@.push(last),
        call_ensures(v4_bytes_per_native_page, (first,), a),
        call_ensures(V4LayerCacheSpec::native_page_bytes, (&last,), b),
        call_ensures(v4_bytes_per_native_page, (all,), c),
    ensures
        c == a + b,
        first@.len() == 0 ==> a == 0,
{
    let sizes = layer_bytes(all@);
    let n = first@.len() as int;
    lemma_sum_step(sizes, n);
    assert(sizes.take(n) =~= layer_bytes(first@));
    assert(sizes.take(n + 1) =~= sizes);
}

/// Alignment gives the only multiple of 256 that is no larger and less than a
/// block away.
pub proof fn law_alignment_cuts_to_whole_blocks(tokens: usize, r: usize, n: int)
    requires
        call_ensures(align_native_block, (tokens,), r),
    ensures
        r <= tokens < r + 256,
        256 * n <= tokens < 256 * (n + 1) ==> r == 256 * n,
{
}

} // verus!
