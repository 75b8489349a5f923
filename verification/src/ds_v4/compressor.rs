//! The compressor: which blocks of tokens become compressed rows, and where
//! its running state lives.

use crate::checkpoint::{dims1, dims2, DType, TensorRead, VarBuilderX};
use crate::distributed::Shard;
use crate::ds_v4::decode_buffers::{Clear, Fill};
use vstd::arithmetic::div_mod::*;
use vstd::arithmetic::mul::{lemma_mul_basics, lemma_mul_inequality, lemma_mul_is_commutative};
use vstd::prelude::*;

verus! {

/// How a layer compresses its tokens.
#[derive(Clone, Copy, Debug, PartialEq, Eq, Structural)]
pub enum LayerCompressionType {
    /// No compression: sliding window only.
    Swa,
    /// Blocks of four tokens, each pooled together with the block before it.
    Overlap,
    /// Separate blocks of that many tokens.
    NonOverlap(usize),
}

impl LayerCompressionType {
    /// The compression that a ratio of the model configuration asks for.
    pub open spec fn of_ratio(ratio: usize) -> Self {
        if ratio == 0 {
            LayerCompressionType::Swa
        } else if ratio == 4 {
            LayerCompressionType::Overlap
        } else {
            LayerCompressionType::NonOverlap(ratio)
        }
    }

    pub fn from_ratio(ratio: usize) -> (r: Self)
        ensures
            r == Self::of_ratio(ratio),
    {
        if ratio == 0 {
            LayerCompressionType::Swa
        } else if ratio == 4 {
            LayerCompressionType::Overlap
        } else {
            LayerCompressionType::NonOverlap(ratio)
        }
    }

    /// Tokens per compressed row, 0 without compression.
    pub open spec fn tokens_per_row(self) -> usize {
        match self {
            LayerCompressionType::Swa => 0,
            LayerCompressionType::Overlap => 4,
            LayerCompressionType::NonOverlap(r) => r,
        }
    }

    pub fn ratio(&self) -> (r: usize)
        ensures
            r == self.tokens_per_row(),
    {
        match self {
            LayerCompressionType::Swa => 0,
            LayerCompressionType::Overlap => 4,
            LayerCompressionType::NonOverlap(r) => *r,
        }
    }

    pub fn has_compressor(&self) -> (r: bool)
        ensures
            r == (*self !is Swa),
    {
        match self {
            LayerCompressionType::Swa => false,
            _ => true,
        }
    }

    pub fn has_indexer(&self) -> (r: bool)
        ensures
            r == (*self is Overlap),
    {
        match self {
            LayerCompressionType::Overlap => true,
            _ => false,
        }
    }
}

/// Reading the ratio back gives the ratio that the type was made from.
pub proof fn law_ratio_round_trip(ratio: usize)
    ensures
        LayerCompressionType::of_ratio(ratio).tokens_per_row() == ratio,
        LayerCompressionType::of_ratio(ratio) is Swa <==> ratio == 0,
        LayerCompressionType::of_ratio(ratio) is Overlap <==> ratio == 4,
{
}

/// Reads that make up the compressor of one layer.
#[derive(Clone)]
pub struct CompressorWeights {
    pub wkv: TensorRead,
    pub wgate: TensorRead,
    pub ape: TensorRead,
    pub norm: TensorRead,
    pub ratio: usize,
    pub head_dim: usize,
    pub hidden_dim: usize,
}

/// What one decode step of the compressor does with its token.
#[derive(Clone, Copy, Debug, PartialEq, Eq, Structural)]
pub enum DecodeStep {
    /// The token is accumulated and nothing comes out.
    Accumulate,
    /// The token closes a block. The compressed row is rotated as for
    /// `rope_pos`, the first position of the block.
    Emit { rope_pos: usize },
}

/// A copy of consecutive rows of projected tokens into the decode state.
#[derive(Clone, Copy, Debug, PartialEq, Eq, Structural)]
pub struct StateCopy {
    /// First token row.
    pub token: usize,
    /// Rows copied.
    pub rows: usize,
    /// First row of the positional bias that is added to the scores.
    pub ape_row: usize,
    /// Slot of the state that the first row goes to.
    pub slot: usize,
    /// Offset of that slot in elements.
    pub elem_offset: usize,
}

/// What a decode state is cleared to, and the copies that come after.
#[derive(Clone, Debug, PartialEq, Eq)]
pub struct StateSeed {
    pub clear: StateClear,
    pub copies: Vec<StateCopy>,
}

/// The slot of the decode state that holds token `pos` once `seq_len` tokens
/// were prefilled, if it is held at all.
pub open spec fn seeded_slot(ratio: int, seq_len: int, pos: int) -> Option<int> {
    let cutoff = seq_len - seq_len % ratio;
    if cutoff <= pos < seq_len {
        Some((if ratio == 4 { ratio } else { 0 }) + pos % ratio)
    } else if ratio == 4 && cutoff - ratio <= pos < cutoff && cutoff >= ratio {
        Some(pos % ratio)
    } else {
        None
    }
}

impl CompressorWeights {
    /// Width of the projections: twice the head where blocks overlap.
    pub open spec fn out_dim(ratio: usize, head_dim: usize) -> int {
        if ratio == 4 { 2 * head_dim } else { head_dim as int }
    }

    /// Whether these are the reads for a compressor below `prefix`.
    pub open spec fn is_planned(&self, vb: &VarBuilderX, prefix: Seq<char>, ratio: usize, head_dim: usize, hidden_dim: usize) -> bool {
        let out = Self::out_dim(ratio, head_dim) as usize;
        let ck = vb.checkpoint.dtype;
        &&& self.ratio == ratio && self.head_dim == head_dim && self.hidden_dim == hidden_dim
        &&& self.wkv.reads(vb.spec_path(prefix + ".wkv.weight"@), seq![out, hidden_dim], Shard::whole(), ck)
        &&& self.wgate.reads(vb.spec_path(prefix + ".wgate.weight"@), seq![out, hidden_dim], Shard::whole(), ck)
        &&& self.ape.reads(vb.spec_path(prefix + ".ape"@), seq![ratio, out], Shard::whole(), DType::F32)
        &&& self.norm.reads(vb.spec_path(prefix + ".norm.weight"@), seq![head_dim], Shard::whole(), ck)
    }

    /// The reads for a compressor below `prefix`, or `None` at ratio 0.
    pub fn load(
        vb: &VarBuilderX,
        prefix: &str,
        ratio: usize,
        head_dim: usize,
        hidden_dim: usize,
    ) -> (r: Option<Self>)
        requires
            Self::out_dim(ratio, head_dim) <= usize::MAX,
        ensures
            r is None <==> ratio == 0,
            r matches Some(w) ==> w.is_planned(vb, prefix@, ratio, head_dim, hidden_dim),
    {
        if ratio == 0 {
            return None;
        }
        let coff: usize = if ratio == 4 { 2 } else { 1 };
        let out: usize = coff * head_dim;
        let p = prefix.to_owned();
        let wkv = p.clone().concat(".wkv.weight");
        let wgate = p.clone().concat(".wgate.weight");
        let ape = p.clone().concat(".ape");
        let norm = p.concat(".norm.weight");
        Some(CompressorWeights {
            wkv: vb.get(wkv.as_str(), dims2(out, hidden_dim)),
            wgate: vb.get(wgate.as_str(), dims2(out, hidden_dim)),
            ape: vb.read(ape.as_str(), dims2(ratio, out), Shard::default(), DType::F32),
            norm: vb.get(norm.as_str(), dims1(head_dim)),
            ratio,
            head_dim,
            hidden_dim,
        })
    }

    pub fn is_overlap(&self) -> (r: bool)
        ensures
            r == (self.ratio == 4),
    {
        self.ratio == 4
    }

    /// Compressed rows that `seq_len` prefilled tokens give, and the distance
    /// of the positions that they are rotated for.
    pub fn prefill(&self, seq_len: usize) -> (r: (usize, usize))
        requires
            self.ratio > 0,
        ensures
            r.0 == seq_len as int / self.ratio as int,
            r.1 == self.ratio,
    {
        (seq_len / self.ratio, self.ratio)
    }

    /// Decides what happens to the token at `start_pos`.
    pub fn decode(&self, start_pos: usize) -> (r: DecodeStep)
        requires
            self.ratio > 0,
            start_pos < usize::MAX,
        ensures
            r == (if (start_pos + 1) % (self.ratio as int) == 0 {
                DecodeStep::Emit { rope_pos: (start_pos + 1 - self.ratio) as usize }
            } else {
                DecodeStep::Accumulate
            }),
    {
        let next: usize = start_pos + 1;
        if next % self.ratio == 0 {
            proof {
                lemma_fundamental_div_mod(next as int, self.ratio as int);
                assert(next as int / self.ratio as int > 0) by (nonlinear_arith)
                    requires
                        next > 0,
                        next as int == self.ratio as int * (next as int / self.ratio as int),
                        self.ratio > 0,
                ;
                lemma_mul_inequality(1, next as int / self.ratio as int, self.ratio as int);
                lemma_mul_is_commutative(self.ratio as int, next as int / self.ratio as int);
            }
            DecodeStep::Emit { rope_pos: next - self.ratio }
        } else {
            DecodeStep::Accumulate
        }
    }

    /// Whether `copies` put every token that is kept of `seq_len` prefilled
    /// ones into its slot, and no other.
    pub open spec fn seeds(&self, seq_len: int, copies: Seq<StateCopy>) -> bool {
        let ratio = self.ratio as int;
        &&& forall|i: int| 0 <= i < copies.len() ==> {
            let c = #[trigger] copies[i];
            &&& c.rows > 0
            &&& c.ape_row + c.rows <= ratio
            &&& c.token + c.rows <= seq_len
            &&& c.elem_offset == c.slot * Self::out_dim(self.ratio, self.head_dim)
            &&& forall|k: int| 0 <= k < c.rows ==> (#[trigger] seeded_slot(ratio, seq_len, c.token + k)) == Some(c.slot + k)
            &&& forall|k: int| 0 <= k < c.rows ==> (#[trigger] ((c.token + k) % ratio)) == c.ape_row + k
        }
        &&& forall|pos: int| (#[trigger] seeded_slot(ratio, seq_len, pos)) is Some && 0 <= pos
            ==> exists|i: int| 0 <= i < copies.len() && (#[trigger] copies[i]).token <= pos < copies[i].token + copies[i].rows
        &&& copies.len() == (if ratio == 4 && seq_len >= 4 { 1int } else { 0 }) + (if seq_len % ratio > 0 { 1int } else { 0 })
    }

    /// Leaves the decode state as if the prefilled tokens had just been
    /// pooled: it is cleared, whatever it held, and then takes the last full
    /// block where blocks overlap and the tokens of the unfinished block.
    pub fn seed_decode_state_after_prefill(&self, state: &CompressorDecodeState, seq_len: usize) -> (r: StateSeed)
        requires
            self.ratio > 0,
            Self::out_dim(self.ratio, self.head_dim) <= usize::MAX,
            self.ratio * Self::out_dim(self.ratio, self.head_dim) <= usize::MAX,
        ensures
            r.clear == state.cleared(),
            self.seeds(seq_len as int, r.copies@),
    {
        let mut copies: Vec<StateCopy> = Vec::new();
        let ratio: usize = self.ratio;
        let out_dim: usize = if ratio == 4 { 2 * self.head_dim } else { self.head_dim };
        let remainder: usize = seq_len % ratio;
        proof {
            lemma_mod_decreases(seq_len as nat, ratio as nat);
        }
        let cutoff: usize = seq_len - remainder;
        let offset: usize = if ratio == 4 { ratio } else { 0 };
        let ghost q = seq_len as int / ratio as int;
        proof {
            lemma_fundamental_div_mod(seq_len as int, ratio as int);
            assert(cutoff == ratio * q);
            assert forall|k: int| 0 <= k < remainder implies #[trigger] ((cutoff + k) % (ratio as int)) == k by {
                lemma_mod_multiples_vanish(q, k, ratio as int);
                lemma_small_mod(k as nat, ratio as nat);
            }
        }
        proof {
            lemma_mul_basics(out_dim as int);
        }
        if ratio == 4 && cutoff >= ratio {
            copies.push(StateCopy { token: cutoff - ratio, rows: ratio, ape_row: 0, slot: 0, elem_offset: 0 });
        }
        if remainder > 0 {
            copies.push(
                StateCopy {
                    token: cutoff,
                    rows: remainder,
                    ape_row: 0,
                    slot: offset,
                    elem_offset: offset * out_dim,
                },
            );
        }
        proof {
            assert forall|pos: int| (#[trigger] seeded_slot(ratio as int, seq_len as int, pos)) is Some && 0 <= pos
                implies exists|i: int| 0 <= i < copies@.len() && (#[trigger] copies@[i]).token <= pos < copies@[i].token + copies@[i].rows by {
                if pos >= cutoff {
                    let i = copies@.len() - 1;
                    assert(copies@[i].token <= pos < copies@[i].token + copies@[i].rows);
                } else {
                    assert(copies@[0].token <= pos < copies@[0].token + copies@[0].rows);
                }
            }
        }
        StateSeed { clear: state.reset(), copies }
    }
}

/// The clearing of a decode state.
#[derive(Clone, Copy, Debug, PartialEq, Eq, Structural)]
pub struct StateClear {
    pub values: Clear,
    pub scores: Clear,
}

/// What a slot of a decode state holds.
pub enum SlotHolds {
    /// Values 0 and scores minus infinity.
    Nothing,
    /// The values of token `pos`, and its scores with row `ape_row` of the
    /// positional bias.
    Token { pos: int, ape_row: int },
    /// Something else.
    Other(int),
}

impl StateClear {
    /// A state after it was cleared.
    pub open spec fn applied(self, before: Seq<SlotHolds>) -> Seq<SlotHolds> {
        Seq::new(
            before.len(),
            |s: int| if s < self.values.rows && s < self.scores.rows && self.values.with is Zero && self.scores.with is MinusInfinity {
                SlotHolds::Nothing
            } else {
                before[s]
            },
        )
    }
}

impl StateCopy {
    /// Whether the copy goes to slot `s`.
    pub open spec fn covers(self, s: int) -> bool {
        self.slot <= s < self.slot + self.rows
    }

    /// What the copy leaves in slot `s`.
    pub open spec fn token_in(self, s: int) -> SlotHolds {
        SlotHolds::Token { pos: self.token + s - self.slot, ape_row: self.ape_row + s - self.slot }
    }

    /// A state after the copy.
    pub open spec fn applied(self, before: Seq<SlotHolds>) -> Seq<SlotHolds> {
        Seq::new(before.len(), |s: int| if self.covers(s) { self.token_in(s) } else { before[s] })
    }
}

/// A state after `copies`, in order.
pub open spec fn all_copied(before: Seq<SlotHolds>, copies: Seq<StateCopy>) -> Seq<SlotHolds>
    decreases copies.len(),
{
    if copies.len() == 0 { before } else { copies.last().applied(all_copied(before, copies.drop_last())) }
}

impl StateSeed {
    /// A state after it was seeded.
    pub open spec fn applied(self, before: Seq<SlotHolds>) -> Seq<SlotHolds> {
        all_copied(self.clear.applied(before), self.copies@)
    }
}

/// Shape of the running state of a compressor.
#[derive(Clone, Copy, Debug, PartialEq, Eq, Structural)]
pub struct CompressorDecodeState {
    pub state_dim: usize,
    pub slots: usize,
}

impl CompressorDecodeState {
    pub fn new(ratio: usize, head_dim: usize) -> (r: Self)
        requires
            ratio == 4 ==> 2 * head_dim <= usize::MAX,
        ensures
            r.slots == (if ratio == 4 { 8 } else { ratio }),
            r.state_dim == CompressorWeights::out_dim(ratio, head_dim),
    {
        if ratio == 4 {
            CompressorDecodeState { slots: 2 * ratio, state_dim: 2 * head_dim }
        } else {
            CompressorDecodeState { slots: ratio, state_dim: head_dim }
        }
    }
}

impl CompressorDecodeState {
    /// Values 0 and scores minus infinity, as a new state has them.
    pub open spec fn cleared(self) -> StateClear {
        StateClear {
            values: Clear { rows: self.slots, cols: self.state_dim, with: Fill::Zero },
            scores: Clear { rows: self.slots, cols: self.state_dim, with: Fill::MinusInfinity },
        }
    }

    /// Clears the state; its buffers stay.
    pub fn reset(&self) -> (r: StateClear)
        ensures
            r == self.cleared(),
    {
        StateClear {
            values: Clear { rows: self.slots, cols: self.state_dim, with: Fill::Zero },
            scores: Clear { rows: self.slots, cols: self.state_dim, with: Fill::MinusInfinity },
        }
    }
}

/// What copies leave in a slot comes from one of them, or was there before.
proof fn lemma_all_copied(before: Seq<SlotHolds>, copies: Seq<StateCopy>, s: int)
    requires
        0 <= s < before.len(),
    ensures
        all_copied(before, copies).len() == before.len(),
        (exists|i: int| 0 <= i < copies.len() && (#[trigger] copies[i]).covers(s)) ==> exists|i: int|
            0 <= i < copies.len() && (#[trigger] copies[i]).covers(s) && all_copied(before, copies)[s] == copies[i].token_in(s),
        !(exists|i: int| 0 <= i < copies.len() && (#[trigger] copies[i]).covers(s)) ==> all_copied(before, copies)[s] == before[s],
    decreases copies.len(),
{
    if copies.len() > 0 {
        let first = copies.drop_last();
        let n = first.len() as int;
        lemma_all_copied(before, first, s);
        if copies[n].covers(s) {
            assert(all_copied(before, copies)[s] == copies[n].token_in(s));
        } else if exists|i: int| 0 <= i < copies.len() && (#[trigger] copies[i]).covers(s) {
            let j = choose|i: int| 0 <= i < copies.len() && (#[trigger] copies[i]).covers(s);
            assert(first[j].covers(s));
            let i = choose|i: int| 0 <= i < first.len() && (#[trigger] first[i]).covers(s) && all_copied(before, first)[s] == first[i].token_in(s);
            assert(copies[i].covers(s) && all_copied(before, copies)[s] == copies[i].token_in(s));
        } else {
            assert forall|i: int| 0 <= i < first.len() implies !(#[trigger] first[i]).covers(s) by {
                assert(!copies[i].covers(s));
            }
        }
    }
}

/// After seeding, each slot holds the token that belongs there, or values 0
/// and scores minus infinity, whatever the state held before.
pub proof fn law_seeding_leaves_nothing_behind(
    w: CompressorWeights,
    state: CompressorDecodeState,
    seed: StateSeed,
    before: Seq<SlotHolds>,
    seq_len: int,
    slot: int,
)
    requires
        w.ratio > 0,
        0 <= seq_len,
        state.slots == (if w.ratio == 4 { 8 } else { w.ratio }),
        seed.clear == state.cleared(),
        w.seeds(seq_len, seed.copies@),
        before.len() == state.slots,
        0 <= slot < state.slots,
    ensures
        seed.applied(before).len() == before.len(),
        forall|pos: int| 0 <= pos && #[trigger] seeded_slot(w.ratio as int, seq_len, pos) == Some(slot)
            ==> seed.applied(before)[slot] == (SlotHolds::Token { pos, ape_row: pos % (w.ratio as int) }),
        (forall|pos: int| 0 <= pos ==> #[trigger] seeded_slot(w.ratio as int, seq_len, pos) != Some(slot))
            ==> seed.applied(before)[slot] is Nothing,
{
    let ratio = w.ratio as int;
    let copies = seed.copies@;
    let cleared = seed.clear.applied(before);
    lemma_all_copied(cleared, copies, slot);
    assert forall|i: int| 0 <= i < copies.len() && (#[trigger] copies[i]).covers(slot) implies ({
        let pos = copies[i].token + slot - copies[i].slot;
        &&& 0 <= pos
        &&& seeded_slot(ratio, seq_len, pos) == Some(slot)
        &&& copies[i].token_in(slot) == (SlotHolds::Token { pos, ape_row: pos % ratio })
    }) by {
        let c = copies[i];
        let k = slot - c.slot;
        assert(seeded_slot(ratio, seq_len, c.token + k) == Some(c.slot + k));
        assert((c.token + k) % ratio == c.ape_row + k);
    }
    assert forall|pos: int| 0 <= pos && #[trigger] seeded_slot(ratio, seq_len, pos) == Some(slot)
        implies seed.applied(before)[slot] == (SlotHolds::Token { pos, ape_row: pos % ratio }) by {
        let i = choose|i: int| 0 <= i < copies.len() && (#[trigger] copies[i]).token <= pos < copies[i].token + copies[i].rows;
        let c = copies[i];
        assert(seeded_slot(ratio, seq_len, c.token + (pos - c.token)) == Some(c.slot + (pos - c.token)));
        assert(c.covers(slot));
        let j = choose|j: int| 0 <= j < copies.len() && (#[trigger] copies[j]).covers(slot)
            && all_copied(cleared, copies)[slot] == copies[j].token_in(slot);
        let other = copies[j].token + slot - copies[j].slot;
        if other < pos {
            law_seeded_slots_distinct(ratio, w.head_dim, seq_len, other, pos);
        } else if pos < other {
            law_seeded_slots_distinct(ratio, w.head_dim, seq_len, pos, other);
        }
    }
}

/// Every token that seeding keeps has a slot of its own inside the state.
pub proof fn law_seeded_slots_distinct(ratio: int, head_dim: usize, seq_len: int, p: int, q: int)
    requires
        0 < ratio <= usize::MAX,
        0 <= seq_len,
        0 <= p < q,
        seeded_slot(ratio, seq_len, p) is Some,
        seeded_slot(ratio, seq_len, q) is Some,
    ensures
        seeded_slot(ratio, seq_len, p) != seeded_slot(ratio, seq_len, q),
        0 <= seeded_slot(ratio, seq_len, p)->0 < (if ratio == 4 { 8 } else { ratio }),
{
    let cutoff = seq_len - seq_len % ratio;
    lemma_fundamental_div_mod(seq_len, ratio);
    lemma_fundamental_div_mod(p, ratio);
    lemma_fundamental_div_mod(q, ratio);
    lemma_mod_bound(p, ratio);
    lemma_mod_bound(q, ratio);
    if cutoff <= p {
        let k = seq_len / ratio;
        lemma_mul_is_commutative(ratio, k);
        assert(p / ratio == k && q / ratio == k) by {
            lemma_fundamental_div_mod_converse(p, ratio, k, p - cutoff);
            lemma_fundamental_div_mod_converse(q, ratio, k, q - cutoff);
        }
    }
}

/// After a prefill of `n` tokens a state of overlapping blocks holds the last
/// whole block in its first four slots, token by token, and the unfinished
/// block in the four behind; a state of separate blocks holds the unfinished
/// block alone. All other slots hold nothing. Every copy starts at the slot
/// that it is for.
pub proof fn law_seeded_state_holds_the_last_blocks(
    w: CompressorWeights,
    state: CompressorDecodeState,
    n: usize,
    seed: StateSeed,
    before: Seq<SlotHolds>,
    k: int,
)
    requires
        w.ratio > 0,
        call_ensures(CompressorWeights::seed_decode_state_after_prefill, (&w, &state, n), seed),
        state.slots == (if w.ratio == 4 { 8 } else { w.ratio }),
        before.len() == state.slots,
        0 <= k < w.ratio,
    ensures
        ({
            let after = seed.applied(before);
            let rest = n as int % w.ratio as int;
            let unfinished = if w.ratio == 4 { 4 + k } else { k };
            &&& after.len() == before.len()
            &&& w.ratio == 4 && n >= 4 ==> after[k] == (SlotHolds::Token { pos: n - rest - 4 + k, ape_row: k })
            &&& w.ratio == 4 && n < 4 ==> after[k] is Nothing
            &&& k < rest ==> after[unfinished] == (SlotHolds::Token { pos: n - rest + k, ape_row: k })
            &&& k >= rest ==> after[unfinished] is Nothing
        }),
        forall|i: int| 0 <= i < seed.copies@.len() ==> (#[trigger] seed.copies@[i]).elem_offset
            == seed.copies@[i].slot * (if w.ratio == 4 { 2 * w.head_dim } else { w.head_dim as int }),
{
    let ratio = w.ratio as int;
    let m = n as int;
    let rest = m % ratio;
    let c = m - rest;
    let unfinished = if ratio == 4 { 4 + k } else { k };
    lemma_fundamental_div_mod(m, ratio);
    lemma_mod_bound(m, ratio);
    let q = m / ratio;
    lemma_mod_multiples_vanish(q, k, ratio);
    lemma_small_mod(k as nat, ratio as nat);
    assert((c + k) % ratio == k);
    law_seeding_leaves_nothing_behind(w, state, seed, before, m, unfinished);
    assert forall|pos: int| 0 <= pos && #[trigger] seeded_slot(ratio, m, pos) == Some(unfinished) implies pos == c + k && k < rest by {
        if c <= pos {
            lemma_mod_multiples_vanish(q, pos - c, ratio);
            lemma_small_mod((pos - c) as nat, ratio as nat);
        } else {
            lemma_mod_bound(pos, ratio);
        }
    }
    if k < rest {
        assert(seeded_slot(ratio, m, c + k) == Some(unfinished));
    }
    if ratio == 4 {
        law_seeding_leaves_nothing_behind(w, state, seed, before, m, k);
        if n >= 4 {
            assert(seeded_slot(ratio, m, c - 4 + k) == Some(k)) by {
                lemma_mod_multiples_vanish(q - 1, k, ratio);
            }
        } else {
            assert forall|pos: int| 0 <= pos implies #[trigger] seeded_slot(ratio, m, pos) != Some(k) by {
                lemma_mod_bound(pos, ratio);
            }
        }
    }
}

/// A compressed row stands for one whole block: a prefill gives one for each
/// block that its tokens fill, and decoding the next token gives one more
/// exactly where that token fills a block. The row is rotated as for the first
/// token of its block.
pub proof fn law_rows_stand_for_whole_blocks(
    w: CompressorWeights,
    n: usize,
    rows: (usize, usize),
    next: (usize, usize),
    step: DecodeStep,
)
    requires
        w.ratio > 0,
        n < usize::MAX,
        call_ensures(CompressorWeights::prefill, (&w, n), rows),
        call_ensures(CompressorWeights::prefill, (&w, (n + 1) as usize), next),
        call_ensures(CompressorWeights::decode, (&w, n), step),
    ensures
        rows.0 * w.ratio <= n < (rows.0 + 1) * w.ratio,
        rows.1 == w.ratio,
        step is Emit <==> next.0 == rows.0 + 1,
        step is Accumulate <==> next.0 == rows.0,
        step matches DecodeStep::Emit { rope_pos } ==> rope_pos == rows.0 * w.ratio && n + 1 == rope_pos + w.ratio,
{
    let ratio = w.ratio as int;
    let (k, r) = (n as int / ratio, n as int % ratio);
    lemma_fundamental_div_mod(n as int, ratio);
    lemma_mod_bound(n as int, ratio);
    lemma_mul_is_commutative(ratio, k);
    assert((k + 1) * ratio == k * ratio + ratio) by (nonlinear_arith);
    if r + 1 == ratio {
        lemma_fundamental_div_mod_converse(n + 1, ratio, k + 1, 0);
    } else {
        lemma_fundamental_div_mod_converse(n + 1, ratio, k, r + 1);
    }
}

/// A ratio of 0 asks for no compression; any other for that many tokens in a
/// row, and four, the only ones with an indexer, for blocks that overlap.
pub proof fn law_ratio_decides_the_compression(
    ratio: usize,
    kind: LayerCompressionType,
    back: usize,
    compresses: bool,
    indexes: bool,
)
    requires
        call_ensures(LayerCompressionType::from_ratio, (ratio,), kind),
        call_ensures(LayerCompressionType::ratio, (&kind,), back),
        call_ensures(LayerCompressionType::has_compressor, (&kind,), compresses),
        call_ensures(LayerCompressionType::has_indexer, (&kind,), indexes),
    ensures
        back == ratio,
        compresses <==> ratio > 0,
        indexes <==> ratio == 4,
        kind is Overlap <==> ratio == 4,
{
}

/// Projections of overlapping blocks are twice as wide as a head, those of
/// separate blocks as wide; the positional bias has a row for each token of a
/// block, and the norm is as wide as a head. The running state has slots of
/// that width: those of one block, or of two where blocks overlap.
pub proof fn law_compressor_shapes(
    vb: VarBuilderX,
    prefix: &str,
    ratio: usize,
    head_dim: usize,
    hidden_dim: usize,
    r: Option<CompressorWeights>,
    state: CompressorDecodeState,
)
    requires
        2 * head_dim <= usize::MAX,
        call_ensures(CompressorWeights::load, (&vb, prefix, ratio, head_dim, hidden_dim), r),
        call_ensures(CompressorDecodeState::new, (ratio, head_dim), state),
    ensures
        r is None <==> ratio == 0,
        r matches Some(w) ==> {
            let out = if ratio == 4 { (2 * head_dim) as usize } else { head_dim };
            &&& w.wkv.path@ == vb.spec_path(prefix@ + ".wkv.weight"@)
            &&& w.wgate.path@ == vb.spec_path(prefix@ + ".wgate.weight"@)
            &&& w.ape.path@ == vb.spec_path(prefix@ + ".ape"@)
            &&& w.norm.path@ == vb.spec_path(prefix@ + ".norm.weight"@)
            &&& w.wkv.shape@ == seq![out, hidden_dim] && w.wgate.shape@ == seq![out, hidden_dim]
            &&& w.ape.shape@ == seq![ratio, out] && w.ape.dtype == DType::F32
            &&& w.norm.shape@ == seq![head_dim]
            &&& w.ratio == ratio && w.head_dim == head_dim && w.hidden_dim == hidden_dim
            &&& state.state_dim == out
        },
        state.slots == (if ratio == 4 { 2 * ratio } else { ratio as int }),
{
}

/// A cleared state has values of 0 and scores that never win, in all slots.
pub proof fn law_cleared_states(s: CompressorDecodeState, r: StateClear)
    requires
        call_ensures(CompressorDecodeState::reset, (&s,), r),
    ensures
        r.values.with == Fill::Zero && r.scores.with == Fill::MinusInfinity,
        r.values.rows == s.slots && r.scores.rows == s.slots,
        r.values.cols == s.state_dim && r.scores.cols == s.state_dim,
{
}

} // verus!
