//! Hyper-connections: several copies of the hidden state, mixed around each
//! block.

use crate::checkpoint::{dims1, dims2, DType, TensorRead, VarBuilderX};
use crate::distributed::{shard, Shard};
use vstd::prelude::*;

verus! {

/// Copies of the hidden states of some tokens.
#[derive(Debug, Clone, Copy, PartialEq, Eq, Structural)]
pub struct HcHiddenStates {
    pub seq_len: usize,
    pub hidden_dim: usize,
    pub hc: usize,
}

/// The mixing weights around one block.
pub struct HcBlockWeights {
    pub hc_fn: TensorRead,
    pub hc_scale: TensorRead,
    pub hc_base: TensorRead,
}

/// Weights that mix `hc` copies: one to read, one to write and one for each
/// pair of copies.
pub open spec fn mixes(hc: int) -> int {
    (2 + hc) * hc
}

/// Sizes that fit the machine.
pub open spec fn hc_fits(hc: usize, hidden_dim: usize) -> bool {
    mixes(hc as int) <= usize::MAX && hc * hidden_dim <= usize::MAX && 2 + hc <= usize::MAX
}

impl HcBlockWeights {
    /// Whether these are the weights that start with `prefix` in the scope.
    pub open spec fn is_planned(&self, vb: &VarBuilderX, prefix: Seq<char>, hc: usize, hidden_dim: usize) -> bool {
        let mix = mixes(hc as int) as usize;
        let dim = (hc * hidden_dim) as usize;
        &&& self.hc_fn.reads(vb.spec_path(prefix + "_fn"@), seq![mix, dim], Shard::whole(), DType::F32)
        &&& self.hc_scale.reads(vb.spec_path(prefix + "_scale"@), seq![3usize], Shard::whole(), DType::F32)
        &&& self.hc_base.reads(vb.spec_path(prefix + "_base"@), seq![mix], Shard::whole(), DType::F32)
    }

    pub fn load(vb: &VarBuilderX, prefix: &str, hc_mult: usize, hidden_dim: usize) -> (r: Self)
        requires
            hc_fits(hc_mult, hidden_dim),
        ensures
            r.is_planned(vb, prefix@, hc_mult, hidden_dim),
    {
        let mix: usize = (2 + hc_mult) * hc_mult;
        let dim: usize = hc_mult * hidden_dim;
        let whole = shard(0, 0, 1);
        HcBlockWeights {
            hc_fn: vb.read(prefix.to_owned().concat("_fn").as_str(), dims2(mix, dim), whole, DType::F32),
            hc_scale: vb.read(prefix.to_owned().concat("_scale").as_str(), dims1(3), whole, DType::F32),
            hc_base: vb.read(prefix.to_owned().concat("_base").as_str(), dims1(mix), whole, DType::F32),
        }
    }
}

/// The weights that bring the copies together at the end.
pub struct HcHeadWeights {
    pub hc_fn: TensorRead,
    pub hc_scale: TensorRead,
    pub hc_base: TensorRead,
}

impl HcHeadWeights {
    /// Whether these are the weights in the scope.
    pub open spec fn is_planned(&self, vb: &VarBuilderX, hc: usize, hidden_dim: usize) -> bool {
        let dim = (hc * hidden_dim) as usize;
        &&& self.hc_fn.reads(vb.spec_path("hc_head_fn"@), seq![hc, dim], Shard::whole(), DType::F32)
        &&& self.hc_scale.reads(vb.spec_path("hc_head_scale"@), seq![1usize], Shard::whole(), DType::F32)
        &&& self.hc_base.reads(vb.spec_path("hc_head_base"@), seq![hc], Shard::whole(), DType::F32)
    }

    pub fn load(vb: &VarBuilderX, hc_mult: usize, hidden_dim: usize) -> (r: Self)
        requires
            hc_mult * hidden_dim <= usize::MAX,
        ensures
            r.is_planned(vb, hc_mult, hidden_dim),
    {
        let dim: usize = hc_mult * hidden_dim;
        let whole = shard(0, 0, 1);
        HcHeadWeights {
            hc_fn: vb.read("hc_head_fn", dims2(hc_mult, dim), whole, DType::F32),
            hc_scale: vb.read("hc_head_scale", dims1(1), whole, DType::F32),
            hc_base: vb.read("hc_head_base", dims1(hc_mult), whole, DType::F32),
        }
    }
}

/// The copies of `seq_len` hidden states.
pub fn hc_expand(seq_len: usize, hidden_dim: usize, hc: usize) -> (r: HcHiddenStates)
    ensures
        r == (HcHiddenStates { seq_len, hidden_dim, hc }),
{
    HcHiddenStates { seq_len, hidden_dim, hc }
}

impl HcHiddenStates {
    /// The copies of each token in one row, and the mixing weights of a token.
    pub fn hc_pre(&self) -> (r: ((usize, usize), usize))
        requires
            hc_fits(self.hc, self.hidden_dim),
        ensures
            r.0 == (self.seq_len, (self.hc * self.hidden_dim) as usize),
            r.1 == mixes(self.hc as int),
    {
        ((self.seq_len, self.hc * self.hidden_dim), (2 + self.hc) * self.hc)
    }
}

/// Each token has `hc` copies side by side, and of mixing weights one to read
/// and one to write for each copy and one for each pair of copies.
pub proof fn law_copies_and_mixes(
    seq_len: usize,
    hidden_dim: usize,
    hc: usize,
    copies: HcHiddenStates,
    r: ((usize, usize), usize),
)
    requires
        hc_fits(hc, hidden_dim),
        call_ensures(hc_expand, (seq_len, hidden_dim, hc), copies),
        call_ensures(HcHiddenStates::hc_pre, (&copies,), r),
    ensures
        r.0.0 == seq_len,
        r.0.1 == hc * hidden_dim,
        r.1 == hc + hc + hc * hc,
{
    assert((2 + hc) * hc == hc + hc + hc * hc) by (nonlinear_arith);
}

/// The mixing weights of a block have a row for each mix and three scales;
/// those at the end have a row for each copy and one scale. All are read in
/// single precision.
pub proof fn law_mixing_weights_are_read_whole(
    vb: VarBuilderX,
    prefix: &str,
    hc: usize,
    hidden_dim: usize,
    block: HcBlockWeights,
    head: HcHeadWeights,
)
    requires
        hc_fits(hc, hidden_dim),
        call_ensures(HcBlockWeights::load, (&vb, prefix, hc, hidden_dim), block),
        call_ensures(HcHeadWeights::load, (&vb, hc, hidden_dim), head),
    ensures
        ({
            let mix = (hc * hc + 2 * hc) as usize;
            let dim = (hc * hidden_dim) as usize;
            &&& block.hc_fn.path@ == vb.spec_path(prefix@ + "_fn"@) && block.hc_fn.shape@ == seq![mix, dim]
            &&& block.hc_scale.path@ == vb.spec_path(prefix@ + "_scale"@) && block.hc_scale.shape@ == seq![3usize]
            &&& block.hc_base.path@ == vb.spec_path(prefix@ + "_base"@) && block.hc_base.shape@ == seq![mix]
            &&& head.hc_fn.path@ == vb.spec_path("hc_head_fn"@) && head.hc_fn.shape@ == seq![hc, dim]
            &&& head.hc_scale.path@ == vb.spec_path("hc_head_scale"@) && head.hc_scale.shape@ == seq![1usize]
            &&& head.hc_base.path@ == vb.spec_path("hc_head_base"@) && head.hc_base.shape@ == seq![hc]
            &&& block.hc_fn.dtype == DType::F32 && block.hc_scale.dtype == DType::F32 && block.hc_base.dtype == DType::F32
            &&& head.hc_fn.dtype == DType::F32 && head.hc_scale.dtype == DType::F32 && head.hc_base.dtype == DType::F32
        }),
{
    assert((2 + hc) * hc == hc * hc + 2 * hc) by (nonlinear_arith);
}

} // verus!
