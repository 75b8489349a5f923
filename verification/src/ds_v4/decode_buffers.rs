//! Buffers of a decode step, sized once.

use vstd::prelude::*;

verus! {

/// The value that all elements of a buffer have.
#[derive(Debug, Clone, Copy, PartialEq, Eq, Structural)]
pub enum Fill {
    Zero,
    MinusInfinity,
}

/// A buffer of `rows` rows of `cols` elements that is filled where it stands.
#[derive(Debug, Clone, Copy, PartialEq, Eq, Structural)]
pub struct Clear {
    pub rows: usize,
    pub cols: usize,
    pub with: Fill,
}

/// Shapes of the buffers of one layer.
#[derive(Debug, Clone, Copy, PartialEq, Eq)]
pub struct LayerDecodeBuffers {
    pub attn_out: (usize, usize, usize),
    pub window_topk: (usize, usize),
    pub compress_topk: (usize, usize),
    pub concat_topk: (usize, usize),
    pub indexer_scores: Option<usize>,
    /// Two buffers of a compressor, as columns.
    pub compressor: Option<(usize, usize)>,
    pub indexer_compressor: Option<(usize, usize)>,
}

/// At least 1.
pub open spec fn positive(n: int) -> int {
    if n > 1 { n } else { 1 }
}

fn at_least_one(n: usize) -> (r: usize)
    ensures
        r == positive(n as int),
{
    if n > 1 { n } else { 1 }
}

impl LayerDecodeBuffers {
    pub open spec fn sized(
        num_heads: usize,
        head_dim: usize,
        sliding_window: usize,
        compress_topk: usize,
        max_compressed_len: usize,
        compressor_head_dim: Option<usize>,
        indexer_head_dim: Option<usize>,
    ) -> Self {
        LayerDecodeBuffers {
            attn_out: (1, num_heads, head_dim),
            window_topk: (1, sliding_window),
            compress_topk: (1, positive(compress_topk as int) as usize),
            concat_topk: (1, positive(sliding_window + compress_topk) as usize),
            indexer_scores: match indexer_head_dim {
                Some(_) => Some(positive(max_compressed_len as int) as usize),
                None => None,
            },
            compressor: match compressor_head_dim {
                Some(d) => Some((d, 1)),
                None => None,
            },
            indexer_compressor: match indexer_head_dim {
                Some(d) => Some((d, 1)),
                None => None,
            },
        }
    }

    pub fn new(
        num_heads: usize,
        head_dim: usize,
        sliding_window: usize,
        compress_topk: usize,
        max_compressed_len: usize,
        compressor_head_dim: Option<usize>,
        indexer_head_dim: Option<usize>,
    ) -> (r: Self)
        requires
            sliding_window + compress_topk <= usize::MAX,
        ensures
            r == Self::sized(
                num_heads, head_dim, sliding_window, compress_topk, max_compressed_len, compressor_head_dim, indexer_head_dim),
    {
        LayerDecodeBuffers {
            attn_out: (1, num_heads, head_dim),
            window_topk: (1, sliding_window),
            compress_topk: (1, at_least_one(compress_topk)),
            concat_topk: (1, at_least_one(sliding_window + compress_topk)),
            indexer_scores: match indexer_head_dim {
                Some(_) => Some(at_least_one(max_compressed_len)),
                None => None,
            },
            compressor: match compressor_head_dim {
                Some(d) => Some((d, 1)),
                None => None,
            },
            indexer_compressor: match indexer_head_dim {
                Some(d) => Some((d, 1)),
                None => None,
            },
        }
    }
}

/// The buffers of a decode step hold one token: its outputs head by head, the
/// places of the whole window and of the compressed rows that it attends to,
/// and all of these places together. None is empty but that of an empty window.
pub proof fn law_decode_buffers_hold_one_token(
    num_heads: usize,
    head_dim: usize,
    window: usize,
    topk: usize,
    rows: usize,
    compressor: Option<usize>,
    indexer: Option<usize>,
    r: LayerDecodeBuffers,
)
    requires
        window + topk <= usize::MAX,
        call_ensures(LayerDecodeBuffers::new, (num_heads, head_dim, window, topk, rows, compressor, indexer), r),
    ensures
        r.attn_out == (1usize, num_heads, head_dim),
        r.window_topk == (1usize, window),
        r.compress_topk.0 == 1 && (topk > 0 ==> r.compress_topk.1 == topk) && (topk == 0 ==> r.compress_topk.1 == 1),
        r.concat_topk.0 == 1 && (window + topk > 0 ==> r.concat_topk.1 == window + topk),
        r.concat_topk.1 > 0,
        r.indexer_scores is Some <==> indexer is Some,
        r.indexer_scores matches Some(n) ==> n > 0 && (rows > 0 ==> n == rows),
        r.compressor is Some <==> compressor is Some,
        compressor matches Some(d) ==> r.compressor == Some((d, 1usize)),
        r.indexer_compressor is Some <==> indexer is Some,
        indexer matches Some(d) ==> r.indexer_compressor == Some((d, 1usize)),
{
}

} // verus!
