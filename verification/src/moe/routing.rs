//! Routing of tokens to experts.
//!
//! Scores are given as integer keys in the order of the scores: the larger
//! the score, the larger its key.

use crate::config::MoEConfig;
use crate::text::same;
use candle_core::{Device, Tensor};
use vstd::arithmetic::div_mod::*;
use vstd::arithmetic::mul::*;
use vstd::prelude::*;

verus! {

/// Errors of the tensor library.
#[verifier::external_type_specification]
#[verifier::external_body]
pub struct ExCandleError(candle_core::Error);

/// `Tensor::arg_sort_last_dim` of a one-dimensional tensor: the indices of
/// `keys` in ascending or descending order of the keys. The sort fails only on
/// tensors that are strided, without dimensions or of some narrow float type,
/// never on a plain list of integers. The order among equal keys is left open.
#[verifier::external_body]
fn arg_sort_last_dim(keys: &Vec<i64>, asc: bool) -> (r: Result<Vec<u32>, candle_core::Error>)
    requires
        0 < keys@.len() <= u32::MAX,
    ensures
        r is Ok,
        r matches Ok(idx) ==> sorts(idx@, keys@, asc),
{
    Tensor::from_slice(keys.as_slice(), keys.len(), &Device::Cpu)?.arg_sort_last_dim(asc)?.to_vec1::<u32>()
}

/// Whether `idx` lists the indices of `keys`, each once, in order of the keys.
pub open spec fn sorts(idx: Seq<u32>, keys: Seq<i64>, asc: bool) -> bool {
    &&& idx.len() == keys.len()
    &&& forall|i: int| 0 <= i < idx.len() ==> (#[trigger] idx[i]) < keys.len()
    &&& idx.no_duplicates()
    &&& forall|k: int| 0 <= k < keys.len() ==> #[trigger] idx.contains(k as u32)
    &&& forall|i: int, j: int| 0 <= i < j < idx.len() ==> {
        let (a, b) = (keys[(#[trigger] idx[i]) as int], keys[(#[trigger] idx[j]) as int]);
        if asc { a <= b } else { a >= b }
    }
}

#[derive(Debug, Clone, Copy, PartialEq, Eq, Structural)]
pub enum RouteError {
    /// There is nothing to choose from, or too much to index.
    Keys { len: usize },
    /// More is asked for than there is.
    TooFew { have: usize, want: usize },
    /// The experts do not divide into groups.
    NotDivisible { experts: usize, groups: usize },
    /// More groups are to be chosen than there are.
    TooFewGroups { chosen: usize, groups: usize },
    /// The chosen groups hold too few experts.
    Capacity { capacity: usize, want: usize },
    /// The number of group keys is not the number of groups.
    GroupKeys { have: usize, want: usize },
}

/// Whether `idx` are `k` indices of largest keys, in descending order.
pub open spec fn is_top(idx: Seq<u32>, keys: Seq<i64>, k: int) -> bool {
    &&& idx.len() == k
    &&& forall|i: int| 0 <= i < k ==> (#[trigger] idx[i]) < keys.len()
    &&& idx.no_duplicates()
    &&& forall|i: int, j: int| 0 <= i < j < k ==> keys[(#[trigger] idx[i]) as int] >= keys[(#[trigger] idx[j]) as int]
    &&& forall|i: int, e: int| 0 <= i < k && 0 <= e < keys.len() && !idx.contains(e as u32)
        ==> keys[(#[trigger] idx[i]) as int] >= #[trigger] keys[e]
}

/// Why `topk` of `have` keys cannot be chosen.
pub open spec fn select_refused(have: int, topk: int) -> Option<RouteError> {
    if have == 0 || have > u32::MAX {
        Some(RouteError::Keys { len: have as usize })
    } else if topk > have {
        Some(RouteError::TooFew { have: have as usize, want: topk as usize })
    } else {
        None
    }
}

/// The indices of the `topk` largest keys. Which of equal keys come first is
/// left open.
pub fn select_topk_indices(keys: &Vec<i64>, topk: usize) -> (r: Result<Vec<u32>, RouteError>)
    ensures
        match select_refused(keys@.len() as int, topk as int) {
            Some(e) => r == Err::<Vec<u32>, RouteError>(e),
            None => r matches Ok(idx) && is_top(idx@, keys@, topk as int),
        },
{
    if keys.len() == 0 || keys.len() as u64 > u32::MAX as u64 {
        return Err(RouteError::Keys { len: keys.len() });
    }
    if topk > keys.len() {
        return Err(RouteError::TooFew { have: keys.len(), want: topk });
    }
    let sorted = arg_sort_last_dim(keys, false).unwrap();
    Ok(take_top(keys, &sorted, topk))
}

/// The first `topk` of indices that are sorted by descending keys.
pub fn take_top(keys: &Vec<i64>, sorted: &Vec<u32>, topk: usize) -> (r: Vec<u32>)
    requires
        topk <= keys@.len() <= u32::MAX,
        sorts(sorted@, keys@, false),
    ensures
        r@ == sorted@.take(topk as int),
        is_top(r@, keys@, topk as int),
{
    let mut idx: Vec<u32> = Vec::new();
    let mut i: usize = 0;
    while i < topk
        invariant
            i <= topk,
            topk <= sorted@.len(),
            idx@ == sorted@.take(i as int),
        decreases topk - i,
    {
        idx.push(sorted[i]);
        i = i + 1;
    }
    proof {
        assert(idx@ =~= sorted@.take(topk as int));
        assert forall|i: int, e: int| 0 <= i < topk && 0 <= e < keys@.len() && !idx@.contains(e as u32)
            implies keys@[(#[trigger] idx@[i]) as int] >= #[trigger] keys@[e] by {
            assert(sorted@.contains(e as u32));
            let j = choose|j: int| 0 <= j < sorted@.len() && sorted@[j] == e as u32;
            if j < topk {
                assert(idx@[j] == e as u32);
            }
            assert(sorted@[i] == idx@[i]);
            assert(keys@[sorted@[i] as int] >= keys@[sorted@[j] as int]);
        }
    }
    idx
}

/// Whether `slots` lists every slot of a batch once and `experts` the experts
/// they go to, in ascending order of the experts.
pub open spec fn are_sorted_slots(experts: Seq<u32>, slots: Seq<u32>, topk_ids: Seq<u32>) -> bool {
    &&& slots.len() == topk_ids.len()
    &&& slots.no_duplicates()
    &&& forall|i: int| 0 <= i < slots.len() ==> (#[trigger] slots[i]) < topk_ids.len()
    &&& experts == Seq::new(slots.len(), |i: int| topk_ids[slots[i] as int])
    &&& forall|i: int, j: int| 0 <= i < j < experts.len() ==> (#[trigger] experts[i]) <= #[trigger] experts[j]
}

/// The experts that the slots of a batch go to, in ascending order, and the
/// slots themselves in that order.
pub fn sort_expert_assignments(topk_ids: &Vec<u32>) -> (r: Result<(Vec<u32>, Vec<u32>), RouteError>)
    ensures
        topk_ids@.len() == 0 || topk_ids@.len() > u32::MAX
            ==> r == Err::<(Vec<u32>, Vec<u32>), RouteError>(RouteError::Keys { len: topk_ids@.len() as usize }),
        0 < topk_ids@.len() <= u32::MAX ==> (r matches Ok((experts, slots)) && are_sorted_slots(experts@, slots@, topk_ids@)),
{
    if topk_ids.len() == 0 || topk_ids.len() as u64 > u32::MAX as u64 {
        return Err(RouteError::Keys { len: topk_ids.len() });
    }
    let mut keys: Vec<i64> = Vec::new();
    let mut i: usize = 0;
    while i < topk_ids.len()
        invariant
            i <= topk_ids@.len(),
            keys@.len() == i,
            forall|j: int| 0 <= j < i ==> #[trigger] keys@[j] == topk_ids@[j] as i64,
        decreases topk_ids@.len() - i,
    {
        keys.push(topk_ids[i] as i64);
        i = i + 1;
    }
    let slots = arg_sort_last_dim(&keys, true).unwrap();
    let mut experts: Vec<u32> = Vec::new();
    let mut j: usize = 0;
    while j < slots.len()
        invariant
            j <= slots@.len(),
            sorts(slots@, keys@, true),
            keys@.len() == topk_ids@.len(),
            experts@.len() == j,
            forall|i: int| 0 <= i < j ==> #[trigger] experts@[i] == topk_ids@[slots@[i] as int],
        decreases slots@.len() - j,
    {
        experts.push(topk_ids[slots[j] as usize]);
        j = j + 1;
    }
    proof {
        assert(experts@ =~= Seq::new(slots@.len(), |i: int| topk_ids@[slots@[i] as int]));
        assert forall|i: int, j: int| 0 <= i < j < experts@.len() implies (#[trigger] experts@[i]) <= #[trigger] experts@[j] by {
            assert(keys@[slots@[i] as int] <= keys@[slots@[j] as int]);
        }
    }
    Ok((experts, slots))
}

/// As [`sort_expert_assignments`] with slots first, in prefill only.
pub fn presorted_expert_assignments(topk_ids: &Vec<u32>, is_prefill: bool) -> (r: Result<Option<(Vec<u32>, Vec<u32>)>, RouteError>)
    ensures
        !is_prefill ==> r == Ok::<Option<(Vec<u32>, Vec<u32>)>, RouteError>(None),
        is_prefill && (topk_ids@.len() == 0 || topk_ids@.len() > u32::MAX)
            ==> r == Err::<Option<(Vec<u32>, Vec<u32>)>, RouteError>(RouteError::Keys { len: topk_ids@.len() as usize }),
        is_prefill && 0 < topk_ids@.len() <= u32::MAX
            ==> (r matches Ok(Some((slots, experts))) && are_sorted_slots(experts@, slots@, topk_ids@)),
{
    if !is_prefill {
        return Ok(None);
    }
    match sort_expert_assignments(topk_ids) {
        Ok((experts, slots)) => Ok(Some((slots, experts))),
        Err(e) => Err(e),
    }
}

/// How tokens are routed.
#[derive(Debug, Clone, Copy, PartialEq, Eq, Structural)]
pub struct MoeRouting {
    pub use_sigmoid_scoring: bool,
    pub n_group: usize,
    pub topk_group: usize,
    pub norm_topk_prob: bool,
    pub num_experts_per_tok: usize,
}

/// Whether the configuration asks for independent scores of the experts.
pub open spec fn sigmoid_scoring(cfg: MoEConfig) -> bool {
    (cfg.topk_method matches Some(m) && m@ == "noaux_tc"@) || (cfg.scoring_func matches Some(s) && s@ == "sigmoid"@)
}

impl MoeRouting {
    pub fn from_moe_cfg(cfg: &MoEConfig) -> (r: Self)
        ensures
            r.use_sigmoid_scoring == sigmoid_scoring(*cfg),
            r.n_group == (match cfg.n_group { Some(n) => n, None => 1 }),
            r.topk_group == (match cfg.topk_group { Some(n) => n, None => 1 }),
            r.norm_topk_prob == cfg.norm_topk_prob,
            r.num_experts_per_tok == cfg.num_experts_per_tok,
    {
        let by_method = match &cfg.topk_method { Some(m) => same(m.as_str(), "noaux_tc"), None => false };
        let by_func = match &cfg.scoring_func { Some(s) => same(s.as_str(), "sigmoid"), None => false };
        MoeRouting {
            use_sigmoid_scoring: by_method || by_func,
            n_group: match cfg.n_group { Some(n) => n, None => 1 },
            topk_group: match cfg.topk_group { Some(n) => n, None => 1 },
            norm_topk_prob: cfg.norm_topk_prob,
            num_experts_per_tok: cfg.num_experts_per_tok,
        }
    }

    /// Whether experts are first narrowed down to groups.
    pub open spec fn groups(&self) -> bool {
        self.use_sigmoid_scoring && self.n_group > 1
    }

    /// What is wrong with routing over groups of `num_experts` experts.
    pub open spec fn group_error(&self, num_experts: usize) -> Option<RouteError> {
        let per_group = num_experts as int / self.n_group as int;
        if num_experts % self.n_group != 0 {
            Some(RouteError::NotDivisible { experts: num_experts, groups: self.n_group })
        } else if self.topk_group > self.n_group {
            Some(RouteError::TooFewGroups { chosen: self.topk_group, groups: self.n_group })
        } else if per_group * self.topk_group < self.num_experts_per_tok {
            Some(RouteError::Capacity { capacity: (per_group * self.topk_group) as usize, want: self.num_experts_per_tok })
        } else {
            None
        }
    }

    /// Experts of one group, or why there are no groups.
    pub fn check_groups(&self, num_experts: usize) -> (r: Result<usize, RouteError>)
        requires
            self.n_group > 0,
        ensures
            r == (match self.group_error(num_experts) {
                Some(e) => Err::<usize, RouteError>(e),
                None => Ok((num_experts as int / self.n_group as int) as usize),
            }),
    {
        if num_experts % self.n_group != 0 {
            return Err(RouteError::NotDivisible { experts: num_experts, groups: self.n_group });
        }
        if self.topk_group > self.n_group {
            return Err(RouteError::TooFewGroups { chosen: self.topk_group, groups: self.n_group });
        }
        let per_group: usize = num_experts / self.n_group;
        proof {
            lemma_fundamental_div_mod(num_experts as int, self.n_group as int);
            lemma_mul_inequality(self.topk_group as int, self.n_group as int, per_group as int);
            lemma_mul_is_commutative(self.topk_group as int, per_group as int);
        }
        if per_group * self.topk_group < self.num_experts_per_tok {
            return Err(RouteError::Capacity { capacity: per_group * self.topk_group, want: self.num_experts_per_tok });
        }
        Ok(per_group)
    }

    /// Why the experts of a token with that many keys are not in groups.
    pub open spec fn group_refused(&self, have: int) -> Option<RouteError> {
        if self.group_error(have as usize) is Some {
            self.group_error(have as usize)
        } else if have == 0 {
            Some(RouteError::Keys { len: 0 })
        } else {
            None
        }
    }

    /// Whether `best` are the best experts of each group: two, or all of a
    /// smaller group.
    pub open spec fn is_group_best(&self, best: Seq<Vec<u32>>, keys: Seq<i64>) -> bool {
        let per = keys.len() as int / self.n_group as int;
        &&& best.len() == self.n_group
        &&& forall|g: int| 0 <= g < best.len() ==> is_top(
            (#[trigger] best[g])@, keys.subrange(g * per, g * per + per), if per < 2 { per } else { 2 })
    }

    /// The experts of each group whose scores make up that of the group when
    /// they are added: the two best. Each is counted from the first expert of
    /// its group.
    pub fn group_best(&self, keys: &Vec<i64>) -> (r: Result<Vec<Vec<u32>>, RouteError>)
        requires
            self.n_group > 0,
            keys@.len() <= u32::MAX,
        ensures
            match self.group_refused(keys@.len() as int) {
                Some(e) => r == Err::<Vec<Vec<u32>>, RouteError>(e),
                None => r matches Ok(best) && self.is_group_best(best@, keys@),
            },
    {
        let per: usize = match self.check_groups(keys.len()) {
            Ok(n) => n,
            Err(e) => return Err(e),
        };
        if keys.len() == 0 {
            return Err(RouteError::Keys { len: 0 });
        }
        proof {
            lemma_fundamental_div_mod(keys@.len() as int, self.n_group as int);
            assert(0 < per <= keys@.len()) by (nonlinear_arith)
                requires
                    keys@.len() as int == self.n_group as int * per as int,
                    keys@.len() > 0,
                    self.n_group > 0,
            ;
        }
        let count: usize = if per < 2 { per } else { 2 };
        let mut best: Vec<Vec<u32>> = Vec::new();
        let mut g: usize = 0;
        while g < self.n_group
            invariant
                g <= self.n_group,
                0 < per <= keys@.len() <= u32::MAX,
                keys@.len() as int == self.n_group as int * per as int,
                count == if per < 2 { per } else { 2 },
                best@.len() == g,
                forall|j: int| 0 <= j < g ==> is_top(
                    (#[trigger] best@[j])@, keys@.subrange(j * per, j * per + per), count as int),
            decreases self.n_group - g,
        {
            proof {
                assert(g * per + per <= self.n_group * per) by (nonlinear_arith)
                    requires
                        g + 1 <= self.n_group,
                ;
            }
            let start: usize = g * per;
            let mut group: Vec<i64> = Vec::new();
            let mut i: usize = 0;
            while i < per
                invariant
                    i <= per,
                    start + per <= keys@.len() <= u32::MAX,
                    group@ == keys@.subrange(start as int, start + i),
                decreases per - i,
            {
                group.push(keys[start + i]);
                i = i + 1;
                assert(group@ =~= keys@.subrange(start as int, start + i));
            }
            match select_topk_indices(&group, count) {
                Ok(top) => best.push(top),
                Err(e) => return Err(e),
            }
            g = g + 1;
        }
        Ok(best)
    }

    /// The keys with those outside the chosen groups put to `zero`, the key
    /// of the score 0.
    pub fn mask_groups(keys: &Vec<i64>, chosen: &Vec<u32>, per_group: usize, zero: i64) -> (r: Vec<i64>)
        requires
            per_group > 0,
        ensures
            r@ == masked(keys@, chosen@, per_group as int, zero),
    {
        let mut out: Vec<i64> = Vec::new();
        let mut e: usize = 0;
        while e < keys.len()
            invariant
                e <= keys@.len(),
                per_group > 0,
                out@.len() == e,
                forall|j: int| 0 <= j < e ==> #[trigger] out@[j] == masked(keys@, chosen@, per_group as int, zero)[j],
            decreases keys@.len() - e,
        {
            let group: usize = e / per_group;
            let mut inside = false;
            let mut i: usize = 0;
            while i < chosen.len()
                invariant
                    i <= chosen@.len(),
                    inside == exists|j: int| 0 <= j < i && #[trigger] chosen@[j] == group,
                decreases chosen@.len() - i,
            {
                if chosen[i] as usize == group {
                    inside = true;
                    assert(chosen@[i as int] == group);
                }
                i = i + 1;
            }
            assert(inside == in_groups(chosen@, per_group as int, e as int));
            out.push(if inside { keys[e] } else { zero });
            e = e + 1;
        }
        assert(out@ =~= masked(keys@, chosen@, per_group as int, zero));
        out
    }

    /// Why a token with that many keys and group keys cannot be routed.
    pub open spec fn route_refused(&self, have: int, group_keys: int) -> Option<RouteError> {
        if !self.groups() {
            select_refused(have, self.num_experts_per_tok as int)
        } else if self.group_error(have as usize) is Some {
            self.group_error(have as usize)
        } else if group_keys != self.n_group {
            Some(RouteError::GroupKeys { have: group_keys as usize, want: self.n_group })
        } else if have == 0 {
            Some(RouteError::Keys { len: 0 })
        } else {
            None
        }
    }

    /// Whether `idx` are the experts of a token: those of largest keys, where
    /// with groups the keys outside of some choice of the groups of largest
    /// group keys count as `zero`.
    pub open spec fn routes(&self, idx: Seq<u32>, keys: Seq<i64>, group_keys: Seq<i64>, zero: i64) -> bool {
        if self.groups() {
            exists|chosen: Seq<u32>| #[trigger] is_top(chosen, group_keys, self.topk_group as int) && is_top(
                idx,
                masked(keys, chosen, keys.len() as int / self.n_group as int, zero),
                self.num_experts_per_tok as int,
            )
        } else {
            is_top(idx, keys, self.num_experts_per_tok as int)
        }
    }

    /// The experts of one token, by keys of its scores. With groups, the
    /// groups of largest `group_keys` are chosen first, and scores elsewhere
    /// count as 0.
    pub fn route(&self, keys: &Vec<i64>, group_keys: &Vec<i64>, zero: i64) -> (r: Result<Vec<u32>, RouteError>)
        requires
            keys@.len() <= u32::MAX,
        ensures
            match self.route_refused(keys@.len() as int, group_keys@.len() as int) {
                Some(e) => r == Err::<Vec<u32>, RouteError>(e),
                None => r matches Ok(idx) && self.routes(idx@, keys@, group_keys@, zero),
            },
    {
        if !(self.use_sigmoid_scoring && self.n_group > 1) {
            return select_topk_indices(keys, self.num_experts_per_tok);
        }
        let per_group: usize = match self.check_groups(keys.len()) {
            Ok(n) => n,
            Err(e) => return Err(e),
        };
        if group_keys.len() != self.n_group {
            return Err(RouteError::GroupKeys { have: group_keys.len(), want: self.n_group });
        }
        if keys.len() == 0 {
            return Err(RouteError::Keys { len: 0 });
        }
        proof {
            lemma_fundamental_div_mod(keys@.len() as int, self.n_group as int);
            assert(self.n_group <= keys@.len()) by (nonlinear_arith)
                requires
                    keys@.len() as int == self.n_group as int * per_group as int,
                    keys@.len() > 0,
            ;
            assert(per_group > 0) by (nonlinear_arith)
                requires
                    keys@.len() as int == self.n_group as int * per_group as int,
                    keys@.len() > 0,
            ;
        }
        let chosen = match select_topk_indices(group_keys, self.topk_group) {
            Ok(c) => c,
            Err(e) => return Err(e),
        };
        let kept = Self::mask_groups(keys, &chosen, per_group, zero);
        proof {
            lemma_mul_inequality(self.topk_group as int, self.n_group as int, per_group as int);
            lemma_mul_is_commutative(self.topk_group as int, per_group as int);
        }
        assert(is_top(chosen@, group_keys@, self.topk_group as int));
        select_topk_indices(&kept, self.num_experts_per_tok)
    }
}

/// Whether expert `e` lies in one of the chosen groups.
pub open spec fn in_groups(chosen: Seq<u32>, per_group: int, e: int) -> bool {
    exists|j: int| 0 <= j < chosen.len() && #[trigger] chosen[j] == e / per_group
}

/// The keys with those outside the chosen groups put to `zero`.
pub open spec fn masked(keys: Seq<i64>, chosen: Seq<u32>, per_group: int, zero: i64) -> Seq<i64> {
    Seq::new(keys.len(), |e: int| if in_groups(chosen, per_group, e) { keys[e] } else { zero })
}

/// Where all scores are above 0, grouped routing stays inside the chosen
/// groups: the capacity check leaves enough experts there.
pub proof fn law_grouped_routing_stays_in_groups(
    routing: MoeRouting,
    idx: Seq<u32>,
    keys: Seq<i64>,
    group_keys: Seq<i64>,
    chosen: Seq<u32>,
    zero: i64,
    i: int,
)
    requires
        routing.groups(),
        routing.group_error(keys.len() as usize) is None,
        0 < keys.len() <= u32::MAX,
        group_keys.len() == routing.n_group,
        is_top(chosen, group_keys, routing.topk_group as int),
        is_top(
            idx,
            masked(keys, chosen, keys.len() as int / routing.n_group as int, zero),
            routing.num_experts_per_tok as int,
        ),
        forall|e: int| 0 <= e < keys.len() ==> (#[trigger] keys[e]) > zero,
        0 <= i < idx.len(),
    ensures
        in_groups(chosen, keys.len() as int / routing.n_group as int, idx[i] as int),
{
    let n = keys.len() as int;
    let per = n / routing.n_group as int;
    let g = routing.topk_group as int;
    let m = masked(keys, chosen, per, zero);
    lemma_fundamental_div_mod(n, routing.n_group as int);
    assert(per > 0) by (nonlinear_arith)
        requires
            n == routing.n_group as int * per,
            n > 0,
    ;
    if !in_groups(chosen, per, idx[i] as int) {
        // Then every expert inside the groups is among those chosen, and
        // one more besides: too many.
        assert(m[idx[i] as int] == zero);
        let inside = Seq::new((g * per) as nat, |t: int| (chosen[t / per] as int * per + t % per) as u32);
        lemma_mul_nonnegative(g, per);
        assert forall|t: int| 0 <= t < g * per implies {
            let e = #[trigger] inside[t];
            &&& e < n
            &&& e as int / per == chosen[t / per]
            &&& e as int % per == t % per
            &&& 0 <= t / per < g
            &&& idx.contains(e)
        } by {
            lemma_fundamental_div_mod(t, per);
            lemma_mod_bound(t, per);
            lemma_div_pos_is_pos(t, per);
            lemma_mul_is_commutative(g, per);
            lemma_multiply_divide_lt(t, per, g);
            let c = chosen[t / per] as int;
            assert(c < routing.n_group);
            let e = c * per + t % per;
            assert(e < n) by (nonlinear_arith)
                requires
                    e == c * per + t % per,
                    t % per < per,
                    c + 1 <= routing.n_group as int,
                    n == routing.n_group as int * per,
                    per > 0,
            ;
            lemma_mul_nonnegative(c, per);
            lemma_fundamental_div_mod_converse(e, per, c, t % per);
            assert(in_groups(chosen, per, e));
            assert(m[e] == keys[e]);
            if !idx.contains(e as u32) {
                assert(m[idx[i] as int] >= m[e]);
            }
        }
        assert(inside.no_duplicates()) by {
            assert forall|a: int, b: int| 0 <= a < inside.len() && 0 <= b < inside.len() && a != b implies inside[a] != inside[b] by {
                if inside[a] == inside[b] {
                    assert(chosen[a / per] == chosen[b / per]);
                    assert(a / per == b / per);
                    lemma_fundamental_div_mod(a, per);
                    lemma_fundamental_div_mod(b, per);
                }
            }
        }
        let all = inside.push(idx[i]);
        assert forall|t: int| 0 <= t < inside.len() implies inside[t] != idx[i] by {
            if inside[t] == idx[i] {
                assert(chosen[t / per] == idx[i] as int / per);
                assert(in_groups(chosen, per, idx[i] as int));
            }
        }
        assert(all.no_duplicates());
        all.unique_seq_to_set();
        idx.unique_seq_to_set();
        assert(all.to_set().subset_of(idx.to_set())) by {
            assert forall|x: u32| all.to_set().contains(x) implies idx.to_set().contains(x) by {
                let t = choose|t: int| 0 <= t < all.len() && all[t] == x;
                if t < inside.len() {
                    assert(inside[t] == x);
                } else {
                    assert(idx[i] == x);
                }
            }
        }
        vstd::set_lib::lemma_len_subset(all.to_set(), idx.to_set());
        lemma_mul_is_commutative(g, per);
    }
}

/// Chosen indices are as many as asked for, differ, come best first, and no
/// index that is left out is better than one of them. The choice is refused
/// exactly where there is nothing to choose from, too much to index, or less
/// than is asked for.
pub proof fn law_choice_is_of_the_best(keys: Vec<i64>, topk: usize, r: Result<Vec<u32>, RouteError>, i: int, j: int, e: u32)
    requires
        call_ensures(select_topk_indices, (&keys, topk), r),
    ensures
        r is Ok <==> 0 < keys@.len() <= u32::MAX && topk <= keys@.len(),
        r == Err::<Vec<u32>, RouteError>(RouteError::TooFew { have: keys@.len() as usize, want: topk })
            <==> 0 < keys@.len() <= u32::MAX && topk > keys@.len(),
        r matches Ok(v) ==> {
            &&& v@.len() == topk
            &&& 0 <= i < topk ==> v@[i] < keys@.len()
            &&& 0 <= i < j < topk ==> v@[i] != v@[j] && keys@[v@[i] as int] >= keys@[v@[j] as int]
            &&& 0 <= i < topk && e < keys@.len() && !v@.contains(e) ==> keys@[v@[i] as int] >= keys@[e as int]
        },
{
    if r is Ok && 0 <= i < topk && e < keys@.len() && !r->Ok_0@.contains(e) {
        let v = r->Ok_0@;
        assert(keys@[v[i] as int] >= keys@[e as int]);
    }
}

/// Sorted assignments name each slot once, beside its own expert, and no
/// expert before a smaller one.
pub proof fn law_assignments_are_sorted_by_expert(
    topk_ids: Vec<u32>,
    r: Result<(Vec<u32>, Vec<u32>), RouteError>,
    is_prefill: bool,
    p: Result<Option<(Vec<u32>, Vec<u32>)>, RouteError>,
    i: int,
    j: int,
)
    requires
        call_ensures(sort_expert_assignments, (&topk_ids,), r),
        call_ensures(presorted_expert_assignments, (&topk_ids, is_prefill), p),
        0 < topk_ids@.len() <= u32::MAX,
    ensures
        r matches Ok((experts, slots)) && {
            &&& experts@.len() == topk_ids@.len() && slots@.len() == topk_ids@.len()
            &&& 0 <= i < slots@.len() ==> slots@[i] < topk_ids@.len() && experts@[i] == topk_ids@[slots@[i] as int]
            &&& 0 <= i < j < slots@.len() ==> slots@[i] != slots@[j] && experts@[i] <= experts@[j]
        },
        p matches Ok(o) && (o is Some <==> is_prefill),
        p matches Ok(Some((slots, experts))) ==> {
            &&& experts@.len() == topk_ids@.len() && slots@.len() == topk_ids@.len()
            &&& 0 <= i < slots@.len() ==> slots@[i] < topk_ids@.len() && experts@[i] == topk_ids@[slots@[i] as int]
            &&& 0 <= i < j < slots@.len() ==> slots@[i] != slots@[j] && experts@[i] <= experts@[j]
        },
{
}

/// Scores are independent where the method or the scoring function says so.
/// Without a number of groups there is one, and one is chosen.
pub proof fn law_routing_follows_the_configuration(cfg: MoEConfig, r: MoeRouting)
    requires
        call_ensures(MoeRouting::from_moe_cfg, (&cfg,), r),
    ensures
        (cfg.topk_method matches Some(m) && m@ == "noaux_tc"@) ==> r.use_sigmoid_scoring,
        (cfg.scoring_func matches Some(s) && s@ == "sigmoid"@) ==> r.use_sigmoid_scoring,
        !(cfg.topk_method matches Some(m) && m@ == "noaux_tc"@) && !(cfg.scoring_func matches Some(s) && s@ == "sigmoid"@)
            ==> !r.use_sigmoid_scoring,
        cfg.n_group matches Some(n) ==> r.n_group == n,
        cfg.n_group is None ==> r.n_group == 1,
        cfg.topk_group matches Some(n) ==> r.topk_group == n,
        cfg.topk_group is None ==> r.topk_group == 1,
        r.num_experts_per_tok == cfg.num_experts_per_tok,
        r.norm_topk_prob == cfg.norm_topk_prob,
{
}

/// Groups are of one size and together hold all experts; those chosen are no
/// more than there are and hold at least as many experts as a token gets.
pub proof fn law_groups_have_room(routing: MoeRouting, num_experts: usize, r: Result<usize, RouteError>, per: int)
    requires
        routing.n_group > 0,
        call_ensures(MoeRouting::check_groups, (&routing, num_experts), r),
    ensures
        r matches Ok(n) ==> n * routing.n_group == num_experts && routing.topk_group <= routing.n_group
            && n * routing.topk_group >= routing.num_experts_per_tok,
        0 <= per && per * routing.n_group == num_experts && routing.topk_group <= routing.n_group
            && per * routing.topk_group >= routing.num_experts_per_tok ==> (r matches Ok(n) && n == per),
        per * routing.n_group < num_experts < (per + 1) * routing.n_group
            ==> r == Err::<usize, RouteError>(RouteError::NotDivisible { experts: num_experts, groups: routing.n_group }),
        0 <= per && per * routing.n_group == num_experts && routing.topk_group > routing.n_group
            ==> r == Err::<usize, RouteError>(RouteError::TooFewGroups { chosen: routing.topk_group, groups: routing.n_group }),
        0 <= per && per * routing.n_group == num_experts && routing.topk_group <= routing.n_group
            && per * routing.topk_group < routing.num_experts_per_tok ==> (r matches Err(RouteError::Capacity { capacity, want })
            && capacity == per * routing.topk_group && want == routing.num_experts_per_tok),
{
    let g = routing.n_group as int;
    lemma_fundamental_div_mod(num_experts as int, g);
    lemma_mul_is_commutative(g, num_experts as int / g);
    if 0 <= per && per * g == num_experts {
        lemma_div_multiples_vanish(per, g);
        lemma_mod_multiples_basic(per, g);
        lemma_mul_is_commutative(per, g);
        if routing.topk_group <= routing.n_group {
            lemma_mul_inequality(routing.topk_group as int, g, per);
            lemma_mul_is_commutative(routing.topk_group as int, per);
            lemma_mul_nonnegative(per, routing.topk_group as int);
        }
    } else if per * g < num_experts < (per + 1) * g {
        assert((per + 1) * g == per * g + g) by (nonlinear_arith);
        lemma_fundamental_div_mod_converse(num_experts as int, g, per, num_experts - per * g);
    }
}

/// The best of a group are two, or all of a smaller one, counted from the
/// first expert of the group; no expert of the group that is left out is
/// better.
pub proof fn law_groups_are_judged_by_their_two_best(
    routing: MoeRouting,
    keys: Vec<i64>,
    r: Result<Vec<Vec<u32>>, RouteError>,
    per: int,
    g: int,
    i: int,
    e: u32,
)
    requires
        routing.n_group > 0,
        0 < keys@.len() <= u32::MAX,
        call_ensures(MoeRouting::group_best, (&routing, &keys), r),
        per * routing.n_group == keys@.len(),
        r is Ok,
        0 <= g < routing.n_group,
    ensures
        ({
            let best = r->Ok_0@[g]@;
            &&& r->Ok_0@.len() == routing.n_group
            &&& per >= 2 ==> best.len() == 2 && best[0] != best[1] && keys@[g * per + best[0]] >= keys@[g * per + best[1]]
            &&& per == 1 ==> best.len() == 1 && best[0] == 0
            &&& 0 <= i < best.len() ==> best[i] < per
            &&& 0 <= i < best.len() && e < per && !best.contains(e) ==> keys@[g * per + best[i]] >= keys@[g * per + e]
        }),
{
    let n = routing.n_group as int;
    lemma_div_multiples_vanish(per, n);
    lemma_mul_is_commutative(per, n);
    assert(per > 0) by (nonlinear_arith)
        requires
            per * n > 0,
            n > 0,
    ;
    assert(0 <= g * per && g * per + per <= keys@.len()) by (nonlinear_arith)
        requires
            per * n == keys@.len(),
            0 <= g,
            g + 1 <= n,
            per > 0,
    ;
    let group = keys@.subrange(g * per, g * per + per);
    let best = r->Ok_0@[g]@;
    assert(is_top(best, group, if per < 2 { per } else { 2 }));
    if 0 <= i < best.len() && e < per && !best.contains(e) {
        assert(group[best[i] as int] >= group[e as int]);
    }
}

/// The keys of chosen groups are kept, all others are as a score of 0.
pub proof fn law_only_chosen_groups_count(
    keys: Vec<i64>,
    chosen: Vec<u32>,
    per_group: usize,
    zero: i64,
    r: Vec<i64>,
    g: int,
    k: int,
)
    requires
        per_group > 0,
        call_ensures(MoeRouting::mask_groups, (&keys, &chosen, per_group, zero), r),
        0 <= g <= u32::MAX,
        0 <= k < per_group,
        g * per_group + k < keys@.len(),
    ensures
        r@.len() == keys@.len(),
        chosen@.contains(g as u32) ==> r@[g * per_group + k] == keys@[g * per_group + k],
        !chosen@.contains(g as u32) ==> r@[g * per_group + k] == zero,
{
    let e = g * per_group + k;
    lemma_mul_nonnegative(g, per_group as int);
    lemma_fundamental_div_mod_converse(e, per_group as int, g, k);
    if chosen@.contains(g as u32) {
        let j = choose|j: int| 0 <= j < chosen@.len() && chosen@[j] == g as u32;
        assert(chosen@[j] == e / per_group as int);
    }
    if in_groups(chosen@, per_group as int, e) {
        let j = choose|j: int| 0 <= j < chosen@.len() && #[trigger] chosen@[j] == e / per_group as int;
        assert(chosen@.contains(g as u32));
    }
}

/// A token goes to as many experts as the configuration says, each once. With
/// independent scores and more than one group, and scores above 0, all of them
/// lie in groups than which no group left out is better; else no expert left
/// out is better than one of them.
pub proof fn law_tokens_go_to_the_best_experts(
    routing: MoeRouting,
    keys: Vec<i64>,
    group_keys: Vec<i64>,
    zero: i64,
    r: Result<Vec<u32>, RouteError>,
    per: int,
    i: int,
    j: int,
    e: u32,
)
    requires
        0 < keys@.len() <= u32::MAX,
        call_ensures(MoeRouting::route, (&routing, &keys, &group_keys, zero), r),
        r is Ok,
        0 <= i < j < routing.num_experts_per_tok,
        e < keys@.len(),
    ensures
        ({
            let v = r->Ok_0@;
            let grouped = routing.use_sigmoid_scoring && routing.n_group > 1;
            &&& v.len() == routing.num_experts_per_tok
            &&& v[i] < keys@.len() && v[i] != v[j]
            &&& !grouped ==> keys@[v[i] as int] >= keys@[v[j] as int]
            &&& !grouped && !v.contains(e) ==> keys@[v[i] as int] >= keys@[e as int]
            &&& grouped && per * routing.n_group == keys@.len() && (forall|k: int| 0 <= k < keys@.len() ==> (#[trigger] keys@[k]) > zero)
                ==> exists|chosen: Seq<u32>| {
                &&& #[trigger] chosen.no_duplicates()
                &&& chosen.len() == routing.topk_group
                &&& chosen.contains((v[i] as int / per) as u32)
                &&& forall|a: int, b: u32| 0 <= a < chosen.len() && b < group_keys@.len() && !#[trigger] chosen.contains(b)
                    ==> group_keys@[(#[trigger] chosen[a]) as int] >= group_keys@[b as int]
                &&& chosen.contains((e as int / per) as u32) && !v.contains(e) ==> keys@[v[i] as int] >= keys@[e as int]
            }
        }),
{
    let v = r->Ok_0@;
    if !(routing.use_sigmoid_scoring && routing.n_group > 1) {
        if !v.contains(e) {
            assert(keys@[v[i] as int] >= keys@[e as int]);
        }
    } else if per * routing.n_group == keys@.len() && (forall|k: int| 0 <= k < keys@.len() ==> (#[trigger] keys@[k]) > zero) {
        let n = routing.n_group as int;
        lemma_div_multiples_vanish(per, n);
        lemma_mul_is_commutative(per, n);
        assert(per > 0) by (nonlinear_arith)
            requires
                per * n > 0,
                n > 0,
        ;
        let chosen = choose|chosen: Seq<u32>| #[trigger] is_top(chosen, group_keys@, routing.topk_group as int) && is_top(
            v,
            masked(keys@, chosen, per, zero),
            routing.num_experts_per_tok as int,
        );
        law_grouped_routing_stays_in_groups(routing, v, keys@, group_keys@, chosen, zero, i);
        law_grouped_routing_stays_in_groups(routing, v, keys@, group_keys@, chosen, zero, j);
        let m = masked(keys@, chosen, per, zero);
        let at = choose|at: int| 0 <= at < chosen.len() && #[trigger] chosen[at] == v[i] as int / per;
        assert(chosen.contains((v[i] as int / per) as u32));
        assert(m[v[i] as int] == keys@[v[i] as int]);
        assert forall|a: int, b: u32| 0 <= a < chosen.len() && b < group_keys@.len() && !#[trigger] chosen.contains(b)
            implies group_keys@[(#[trigger] chosen[a]) as int] >= group_keys@[b as int] by {
            assert(group_keys@[chosen[a] as int] >= group_keys@[b as int]);
        }
        if chosen.contains((e as int / per) as u32) && !v.contains(e) {
            let b = choose|b: int| 0 <= b < chosen.len() && chosen[b] == (e as int / per) as u32;
            assert(0 <= e as int / per <= e) by (nonlinear_arith)
                requires
                    per > 0,
                    e >= 0,
            ;
            assert(chosen[b] == e as int / per);
            assert(in_groups(chosen, per, e as int));
            assert(m[e as int] == keys@[e as int]);
            assert(m[v[i] as int] >= m[e as int]);
        }
        assert(chosen.no_duplicates());
    }
}

} // verus!
