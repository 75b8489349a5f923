//! Sequences that are packed one after the other.

use vstd::prelude::*;

verus! {

/// Ends of packed sequences: each sequence ends no earlier than the one
/// before.
pub open spec fn are_ends(ends: Seq<u32>) -> bool {
    forall|i: int, j: int| 0 <= i <= j < ends.len() ==> ends[i] <= ends[j]
}

/// Where sequence `i` starts.
pub open spec fn start_of(ends: Seq<u32>, i: int) -> int {
    if i == 0 { 0 } else { ends[i - 1] as int }
}

/// The lengths of packed sequences.
pub fn sequence_lens(ends: &Vec<u32>) -> (r: Vec<u32>)
    requires
        are_ends(ends@),
    ensures
        r@.len() == ends@.len(),
        forall|i: int| 0 <= i < r@.len() ==> #[trigger] r@[i] == ends@[i] - start_of(ends@, i),
{
    let mut v: Vec<u32> = Vec::new();
    let mut start: u32 = 0;
    let mut i: usize = 0;
    while i < ends.len()
        invariant
            are_ends(ends@),
            i <= ends@.len(),
            start == start_of(ends@, i as int),
            v@.len() == i,
            forall|j: int| 0 <= j < i ==> #[trigger] v@[j] == ends@[j] - start_of(ends@, j),
        decreases ends@.len() - i,
    {
        assert(i > 0 ==> ends@[i - 1] <= ends@[i as int]);
        v.push(ends[i] - start);
        start = ends[i];
        i = i + 1;
    }
    v
}

/// The side of the causal mask of each sequence of a prefill; `None` where no
/// masks are made. Sequences of one token or none get a mask of one element.
pub fn causal_mask_sides(is_prefill: bool, ends: &Vec<u32>) -> (r: Option<Vec<u32>>)
    requires
        are_ends(ends@),
    ensures
        r is Some <==> is_prefill && ends@.len() > 0,
        r matches Some(v) ==> v@.len() == ends@.len() && forall|i: int| 0 <= i < v@.len()
            ==> #[trigger] v@[i] == if ends@[i] - start_of(ends@, i) > 1 { ends@[i] - start_of(ends@, i) } else { 1 },
{
    if !is_prefill || ends.len() == 0 {
        return None;
    }
    let lens = sequence_lens(ends);
    let mut v: Vec<u32> = Vec::new();
    let mut i: usize = 0;
    while i < lens.len()
        invariant
            i <= lens@.len(),
            lens@.len() == ends@.len(),
            forall|j: int| 0 <= j < lens@.len() ==> #[trigger] lens@[j] == ends@[j] - start_of(ends@, j),
            v@.len() == i,
            forall|j: int| 0 <= j < i
                ==> #[trigger] v@[j] == if ends@[j] - start_of(ends@, j) > 1 { ends@[j] - start_of(ends@, j) } else { 1 },
        decreases lens@.len() - i,
    {
        v.push(if lens[i] > 1 { lens[i] } else { 1 });
        i = i + 1;
    }
    Some(v)
}

/// The last row of each sequence.
pub fn last_rows(ends: &Vec<u32>) -> (r: Vec<u32>)
    requires
        forall|i: int| 0 <= i < ends@.len() ==> #[trigger] ends@[i] > 0,
    ensures
        r@.len() == ends@.len(),
        forall|i: int| 0 <= i < r@.len() ==> #[trigger] r@[i] == ends@[i] - 1,
{
    let mut v: Vec<u32> = Vec::new();
    let mut i: usize = 0;
    while i < ends.len()
        invariant
            i <= ends@.len(),
            forall|j: int| 0 <= j < ends@.len() ==> #[trigger] ends@[j] > 0,
            v@.len() == i,
            forall|j: int| 0 <= j < i ==> #[trigger] v@[j] == ends@[j] - 1,
        decreases ends@.len() - i,
    {
        v.push(ends[i] - 1);
        i = i + 1;
    }
    v
}

/// A sequence that is not empty contains its last row, and no other sequence
/// does.
pub proof fn law_last_row_is_in_its_sequence(ends: Seq<u32>, i: int, j: int)
    requires
        are_ends(ends),
        0 <= i < ends.len(),
        0 <= j < ends.len(),
        start_of(ends, i) < ends[i],
    ensures
        start_of(ends, i) <= ends[i] - 1 < ends[i],
        start_of(ends, j) <= ends[i] - 1 < ends[j] ==> j == i,
{
    if start_of(ends, j) <= ends[i] - 1 < ends[j] && j != i {
        if j < i {
            assert(ends[j] <= ends[i - 1]);
        } else {
            assert(ends[i] <= ends[j - 1]);
        }
    }
}

/// The lengths of the first sequences add up to where the next one starts.
pub proof fn law_lens_add_up(ends: Seq<u32>, lens: Seq<nat>, n: int)
    requires
        are_ends(ends),
        lens.len() == ends.len(),
        forall|i: int| 0 <= i < lens.len() ==> #[trigger] lens[i] == ends[i] - start_of(ends, i),
        0 <= n <= ends.len(),
    ensures
        crate::math::sum(lens.take(n)) == start_of(ends, n),
    decreases n,
{
    if n == 0 {
        assert(lens.take(0) =~= Seq::<nat>::empty());
    } else {
        law_lens_add_up(ends, lens, n - 1);
        crate::math::lemma_sum_step(lens, n - 1);
    }
}

/// Each sequence starts where the one before ends, and its length leads from
/// its start to its end; its last row is the one before its end. A prefill has
/// a square mask for each sequence, as large as the sequence and never empty.
pub proof fn law_sequences_follow_each_other(
    ends: Vec<u32>,
    lens: Vec<u32>,
    last: Vec<u32>,
    is_prefill: bool,
    masks: Option<Vec<u32>>,
    i: int,
)
    requires
        are_ends(ends@),
        forall|j: int| 0 <= j < ends@.len() ==> #[trigger] ends@[j] > 0,
        call_ensures(sequence_lens, (&ends,), lens),
        call_ensures(last_rows, (&ends,), last),
        call_ensures(causal_mask_sides, (is_prefill, &ends), masks),
        0 <= i < ends@.len(),
    ensures
        lens@.len() == ends@.len() && last@.len() == ends@.len(),
        i == 0 ==> lens@[i] == ends@[i],
        i > 0 ==> ends@[i - 1] + lens@[i] == ends@[i],
        last@[i] + 1 == ends@[i],
        masks is Some <==> is_prefill,
        masks matches Some(m) ==> m@.len() == ends@.len() && (lens@[i] > 0 ==> m@[i] == lens@[i]) && (lens@[i] == 0 ==> m@[i] == 1),
{
}

} // verus!
