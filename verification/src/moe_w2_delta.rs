//! The pool of experts that are kept at higher precision, and the confidence
//! gate that asks for a second pass with them.

use crate::text::{ascii_lower_char, lowercase, lowercase_of, same, same_in_small};
use vstd::prelude::*;

verus! {

/// When experts are promoted into the pool, and which one makes room.
#[derive(Debug, Clone, Copy, PartialEq, Eq, Structural)]
pub enum DeltaPolicy {
    /// Promote on every routing; the least often used expert makes room.
    Freq,
    /// Promote on every routing; the least recently used expert makes room.
    Lru,
    /// Promote only when a low confidence asks for it.
    Need,
}

impl DeltaPolicy {
    /// The policy of a name in lower case. Unknown names mean [`DeltaPolicy::Need`].
    pub open spec fn of_name(name: Seq<char>) -> Self {
        if name == "freq"@ {
            DeltaPolicy::Freq
        } else if name == "lru"@ {
            DeltaPolicy::Lru
        } else {
            DeltaPolicy::Need
        }
    }

    /// The policy of a name in lower case.
    pub fn from_lowercase(name: &str) -> (r: Self)
        ensures
            r == Self::of_name(name@),
    {
        if same(name, "freq") {
            DeltaPolicy::Freq
        } else if same(name, "lru") {
            DeltaPolicy::Lru
        } else {
            DeltaPolicy::Need
        }
    }

    /// The policy that a setting names, in any case; without a setting,
    /// [`DeltaPolicy::Need`].
    pub fn from_setting(value: Option<&str>) -> (r: Self)
        ensures
            value is None ==> r == DeltaPolicy::Need,
            value matches Some(v) ==> r == Self::of_name(lowercase_of(v@)),
    {
        match value {
            None => DeltaPolicy::Need,
            Some(v) => {
                let name = lowercase(v);
                Self::from_lowercase(name.as_str())
            },
        }
    }
}

/// Whether a setting switches something on: anything but `0` and `false`, the
/// latter in any case.
pub open spec fn switched_on(value: Option<&str>, default: bool) -> bool {
    match value {
        None => default,
        Some(v) => v@ != "0"@ && v@.map_values(|c: char| ascii_lower_char(c)) != "false"@,
    }
}

pub fn read_switch(value: Option<&str>, default: bool) -> (r: bool)
    ensures
        r == switched_on(value, default),
{
    match value {
        None => default,
        Some(v) => {
            !same(v, "0") && !same_in_small(v, "false")
        },
    }
}

/// An expert in the pool.
#[derive(Debug, Clone, Copy, PartialEq, Eq, Structural)]
pub struct Slot {
    pub layer: usize,
    pub expert: usize,
    /// Routings since it was promoted.
    pub hits: u64,
    /// Tick of the last routing.
    pub last_tick: u64,
}

/// The smaller, the sooner the slot makes room.
pub open spec fn worth(slot: Option<Slot>, policy: DeltaPolicy) -> u64 {
    match slot {
        Some(s) => if policy == DeltaPolicy::Freq { s.hits } else { s.last_tick },
        None => 0,
    }
}

/// Whether slot `i` holds the expert.
pub open spec fn holds_at(slots: Seq<Option<Slot>>, i: int, layer: usize, expert: usize) -> bool {
    slots[i] matches Some(s) && s.layer == layer && s.expert == expert
}

/// Whether the expert is in the pool.
pub open spec fn holds(slots: Seq<Option<Slot>>, layer: usize, expert: usize) -> bool {
    exists|i: int| 0 <= i < slots.len() && holds_at(slots, i, layer, expert)
}

/// Whether no expert is in the pool twice.
pub open spec fn no_repeats(slots: Seq<Option<Slot>>) -> bool {
    forall|i: int, j: int, layer: usize, expert: usize| 0 <= i < slots.len() && 0 <= j < slots.len()
        && #[trigger] holds_at(slots, i, layer, expert) && #[trigger] holds_at(slots, j, layer, expert) ==> i == j
}

/// Whether a slot holds one of the experts `kept` of `layer`.
pub open spec fn is_kept(slot: Option<Slot>, layer: usize, kept: Seq<usize>) -> bool {
    slot matches Some(s) && s.layer == layer && kept.contains(s.expert)
}

/// Whether slot `i` makes room rather than slot `j`: an expert that is not
/// kept before one that is, then the one of less worth, then the first.
pub open spec fn yields_before(slots: Seq<Option<Slot>>, policy: DeltaPolicy, layer: usize, kept: Seq<usize>, i: int, j: int) -> bool {
    if is_kept(slots[i], layer, kept) != is_kept(slots[j], layer, kept) {
        is_kept(slots[j], layer, kept)
    } else if j < i {
        worth(slots[i], policy) < worth(slots[j], policy)
    } else {
        worth(slots[i], policy) <= worth(slots[j], policy)
    }
}

/// The slot that the next expert goes to: the first free one, or else the
/// one that makes room before all others.
pub open spec fn is_next_slot(slots: Seq<Option<Slot>>, policy: DeltaPolicy, layer: usize, kept: Seq<usize>, i: int) -> bool {
    &&& 0 <= i < slots.len()
    &&& slots[i] is None ==> forall|j: int| 0 <= j < i ==> (#[trigger] slots[j]) is Some
    &&& slots[i] is Some ==> forall|j: int| 0 <= j < slots.len() ==> (#[trigger] slots[j]) is Some
        && yields_before(slots, policy, layer, kept, i, j)
}

/// The next slot, where there is any.
pub open spec fn next_slot(slots: Seq<Option<Slot>>, policy: DeltaPolicy, layer: usize, kept: Seq<usize>) -> int {
    choose|i: int| is_next_slot(slots, policy, layer, kept, i)
}

/// There is only one next slot.
proof fn lemma_next_slot_unique(slots: Seq<Option<Slot>>, policy: DeltaPolicy, layer: usize, kept: Seq<usize>, i: int)
    requires
        is_next_slot(slots, policy, layer, kept, i),
    ensures
        next_slot(slots, policy, layer, kept) == i,
{
    let k = next_slot(slots, policy, layer, kept);
    assert(is_next_slot(slots, policy, layer, kept, k));
    if k < i {
        assert(slots[k] is Some);
    } else if i < k {
        assert(slots[i] is Some);
    }
}

/// The pool after a promotion that spares the experts `kept` of the layer as
/// long as another can make room.
pub open spec fn promoted(slots: Seq<Option<Slot>>, policy: DeltaPolicy, tick: u64, layer: usize, kept: Seq<usize>, expert: usize) -> Seq<Option<Slot>> {
    if slots.len() == 0 || holds(slots, layer, expert) {
        slots
    } else {
        slots.update(next_slot(slots, policy, layer, kept), Some(Slot { layer, expert, hits: 1, last_tick: tick }))
    }
}

/// A slot after one routing of `expert`: marked as used if it holds the expert.
pub open spec fn used(slot: Option<Slot>, tick: u64, layer: usize, expert: usize) -> Option<Slot> {
    match slot {
        Some(s) => if s.layer == layer && s.expert == expert {
            let hits = if s.hits == u64::MAX { 0 } else { (s.hits + 1) as u64 };
            Some(Slot { layer, expert, hits, last_tick: tick })
        } else {
            slot
        },
        None => None,
    }
}

/// The pool after one routing of `expert` at tick `tick`.
pub open spec fn routed(slots: Seq<Option<Slot>>, policy: DeltaPolicy, tick: u64, layer: usize, expert: usize) -> Seq<Option<Slot>> {
    if holds(slots, layer, expert) {
        slots.map_values(|s: Option<Slot>| used(s, tick, layer, expert))
    } else if policy == DeltaPolicy::Need {
        slots
    } else {
        promoted(slots, policy, tick, layer, Seq::empty(), expert)
    }
}

/// The pool after the routings of `experts`, in order.
pub open spec fn all_routed(slots: Seq<Option<Slot>>, policy: DeltaPolicy, tick: u64, layer: usize, experts: Seq<usize>) -> Seq<Option<Slot>>
    decreases experts.len(),
{
    if experts.len() == 0 {
        slots
    } else {
        routed(all_routed(slots, policy, tick, layer, experts.drop_last()), policy, tick, layer, experts.last())
    }
}

/// The pool after the promotions of `experts`, in order, each of which spares
/// the experts `kept`.
pub open spec fn all_promoted(slots: Seq<Option<Slot>>, policy: DeltaPolicy, tick: u64, layer: usize, kept: Seq<usize>, experts: Seq<usize>) -> Seq<Option<Slot>>
    decreases experts.len(),
{
    if experts.len() == 0 {
        slots
    } else {
        promoted(all_promoted(slots, policy, tick, layer, kept, experts.drop_last()), policy, tick, layer, kept, experts.last())
    }
}

fn lists(experts: &[usize], expert: usize) -> (r: bool)
    ensures
        r == experts@.contains(expert),
{
    let mut k: usize = 0;
    while k < experts.len()
        invariant
            k <= experts@.len(),
            forall|j: int| 0 <= j < k ==> experts@[j] != expert,
        decreases experts@.len() - k,
    {
        if experts[k] == expert {
            return true;
        }
        k = k + 1;
    }
    false
}

/// Keeps the pool and the confidence switch.
pub struct MoeW2DeltaManager {
    pub policy: DeltaPolicy,
    pub gate_enabled: bool,
    pub tick: u64,
    pub slots: Vec<Option<Slot>>,
}

impl MoeW2DeltaManager {
    pub open spec fn wf(&self) -> bool {
        no_repeats(self.slots@)
    }

    /// An empty pool of `capacity_slots` slots.
    pub fn new(capacity_slots: usize, policy: DeltaPolicy, gate_enabled: bool) -> (r: Self)
        ensures
            r.wf(),
            r.policy == policy,
            r.gate_enabled == gate_enabled,
            r.tick == 0,
            r.slots@ == Seq::new(capacity_slots as nat, |i: int| None::<Slot>),
    {
        let mut slots: Vec<Option<Slot>> = Vec::new();
        let mut i: usize = 0;
        while i < capacity_slots
            invariant
                i <= capacity_slots,
                slots@.len() == i,
                forall|j: int| 0 <= j < i ==> (#[trigger] slots@[j]) is None,
            decreases capacity_slots - i,
        {
            slots.push(None);
            i = i + 1;
        }
        assert(slots@ =~= Seq::new(capacity_slots as nat, |i: int| None::<Slot>));
        MoeW2DeltaManager { policy, gate_enabled, tick: 0, slots }
    }

    pub fn capacity(&self) -> (r: usize)
        ensures
            r == self.slots@.len(),
    {
        self.slots.len()
    }

    pub fn gate_enabled(&self) -> (r: bool)
        ensures
            r == self.gate_enabled,
    {
        self.gate_enabled
    }

    /// Whether a forward pass is repeated with promoted experts, given
    /// whether the router's confidence is at most the threshold.
    pub fn should_replay(&self, confidence_is_low: bool) -> (r: bool)
        ensures
            r == (self.gate_enabled && confidence_is_low),
    {
        self.gate_enabled && confidence_is_low
    }

    fn find(&self, layer: usize, expert: usize) -> (r: Option<usize>)
        ensures
            match r {
                Some(i) => i < self.slots@.len() && holds_at(self.slots@, i as int, layer, expert),
                None => !holds(self.slots@, layer, expert),
            },
    {
        let mut i: usize = 0;
        while i < self.slots.len()
            invariant
                i <= self.slots@.len(),
                forall|j: int| 0 <= j < i ==> !holds_at(self.slots@, j, layer, expert),
            decreases self.slots@.len() - i,
        {
            if let Some(s) = self.slots[i] {
                if s.layer == layer && s.expert == expert {
                    return Some(i);
                }
            }
            i = i + 1;
        }
        None
    }

    pub fn is_promoted(&self, layer: usize, expert: usize) -> (r: bool)
        ensures
            r == holds(self.slots@, layer, expert),
    {
        self.find(layer, expert).is_some()
    }

    fn worth_of(&self, i: usize) -> (r: u64)
        requires
            i < self.slots@.len(),
        ensures
            r == worth(self.slots@[i as int], self.policy),
    {
        match self.slots[i] {
            Some(s) => if self.policy == DeltaPolicy::Freq { s.hits } else { s.last_tick },
            None => 0,
        }
    }

    fn kept_at(&self, i: usize, layer: usize, kept: &[usize]) -> (r: bool)
        requires
            i < self.slots@.len(),
        ensures
            r == is_kept(self.slots@[i as int], layer, kept@),
    {
        match self.slots[i] {
            Some(s) => s.layer == layer && lists(kept, s.expert),
            None => false,
        }
    }

    fn pick_slot(&self, layer: usize, kept: &[usize]) -> (r: usize)
        requires
            self.slots@.len() > 0,
        ensures
            is_next_slot(self.slots@, self.policy, layer, kept@, r as int),
    {
        let mut i: usize = 0;
        let mut best: usize = 0;
        while i < self.slots.len()
            invariant
                i <= self.slots@.len(),
                self.slots@.len() > 0,
                best < self.slots@.len(),
                i == 0 ==> best == 0,
                i > 0 ==> best < i,
                forall|j: int| 0 <= j < i ==> (#[trigger] self.slots@[j]) is Some,
                forall|j: int| 0 <= j < i ==> #[trigger] yields_before(self.slots@, self.policy, layer, kept@, best as int, j),
            decreases self.slots@.len() - i,
        {
            if self.slots[i].is_none() {
                return i;
            }
            let spared: bool = self.kept_at(i, layer, kept);
            let best_spared: bool = self.kept_at(best, layer, kept);
            let lesser: bool = self.worth_of(i) < self.worth_of(best);
            if (spared == best_spared && lesser) || (!spared && best_spared) {
                assert forall|j: int| 0 <= j < i implies #[trigger] yields_before(self.slots@, self.policy, layer, kept@, i as int, j) by {
                    assert(yields_before(self.slots@, self.policy, layer, kept@, best as int, j));
                }
                best = i;
            }
            i = i + 1;
        }
        best
    }

    fn promote(&mut self, layer: usize, kept: &[usize], expert: usize)
        requires
            old(self).wf(),
        ensures
            final(self).wf(),
            final(self).policy == old(self).policy,
            final(self).gate_enabled == old(self).gate_enabled,
            final(self).tick == old(self).tick,
            final(self).slots@ == promoted(old(self).slots@, old(self).policy, old(self).tick, layer, kept@, expert),
    {
        if self.slots.len() == 0 || self.find(layer, expert).is_some() {
            return;
        }
        let i: usize = self.pick_slot(layer, kept);
        proof {
            lemma_next_slot_unique(self.slots@, self.policy, layer, kept@, i as int);
        }
        let ghost before = self.slots@;
        self.slots.set(i, Some(Slot { layer, expert, hits: 1, last_tick: self.tick }));
        proof {
            lemma_promotion_repeats_nothing(before, self.slots@, i as int, layer, expert);
        }
    }

    /// Records the routing of `experts`: those in the pool are marked as
    /// used, the others are promoted unless the policy waits for low confidence.
    pub fn observe(&mut self, layer: usize, experts: &[usize])
        requires
            old(self).wf(),
        ensures
            final(self).wf(),
            final(self).policy == old(self).policy,
            final(self).gate_enabled == old(self).gate_enabled,
            final(self).tick == (if old(self).tick == u64::MAX { 0 } else { old(self).tick + 1 }),
            final(self).slots@ == all_routed(old(self).slots@, old(self).policy, final(self).tick, layer, experts@),
    {
        self.tick = self.tick.wrapping_add(1);
        let ghost before = self.slots@;
        if self.slots.len() == 0 {
            proof {
                lemma_empty_pool(before, self.policy, self.tick, layer, experts@);
            }
            return;
        }
        let ghost tick = self.tick;
        let mut i: usize = 0;
        assert(experts@.take(0) =~= Seq::<usize>::empty());
        while i < experts.len()
            invariant
                i <= experts@.len(),
                self.wf(),
                self.policy == old(self).policy,
                self.gate_enabled == old(self).gate_enabled,
                self.tick == tick,
                self.slots@ == all_routed(before, self.policy, tick, layer, experts@.take(i as int)),
            decreases experts@.len() - i,
        {
            let expert: usize = experts[i];
            assert(experts@.take(i + 1).drop_last() =~= experts@.take(i as int));
            let ghost now = self.slots@;
            match self.find(layer, expert) {
                Some(at) => {
                    if let Some(s) = self.slots[at] {
                        let hits: u64 = s.hits.wrapping_add(1);
                        self.slots.set(at, Some(Slot { layer: s.layer, expert: s.expert, hits, last_tick: self.tick }));
                        proof {
                            assert(holds(now, layer, expert));
                            assert forall|j: int| 0 <= j < now.len() && j != at implies !holds_at(now, j, layer, expert) by {
                                assert(holds_at(now, at as int, layer, expert));
                            }
                            assert forall|j: int| 0 <= j < now.len() implies self.slots@[j] == used(#[trigger] now[j], tick, layer, expert) by {
                                if j != at {
                                    assert(!holds_at(now, j, layer, expert));
                                }
                            }
                            assert(self.slots@ =~= routed(now, self.policy, tick, layer, expert));
                            assert forall|a: int, b: int, l: usize, e: usize| 0 <= a < now.len() && 0 <= b < now.len()
                                && #[trigger] holds_at(self.slots@, a, l, e) && #[trigger] holds_at(self.slots@, b, l, e) implies a == b by {
                                assert(holds_at(now, a, l, e) && holds_at(now, b, l, e));
                            }
                        }
                    }
                },
                None => {
                    if self.policy != DeltaPolicy::Need {
                        let nothing: [usize; 0] = [];
                        assert(nothing@ =~= Seq::<usize>::empty());
                        self.promote(layer, &nothing, expert);
                    }
                },
            }
            i = i + 1;
        }
        assert(experts@.take(i as int) =~= experts@);
    }

    /// Promotes `experts` for a second pass. None of them makes room as long
    /// as another expert can, so that all are in the pool afterwards if they
    /// fit it.
    pub fn force_promote(&mut self, layer: usize, experts: &[usize])
        requires
            old(self).wf(),
        ensures
            final(self).wf(),
            final(self).policy == old(self).policy,
            final(self).gate_enabled == old(self).gate_enabled,
            final(self).tick == old(self).tick,
            final(self).slots@ == all_promoted(old(self).slots@, old(self).policy, old(self).tick, layer, experts@, experts@),
            experts@.to_set().len() <= old(self).slots@.len() ==> forall|e: usize|
                experts@.contains(e) ==> #[trigger] holds(final(self).slots@, layer, e),
    {
        let ghost before = self.slots@;
        let mut i: usize = 0;
        assert(experts@.take(0) =~= Seq::<usize>::empty());
        while i < experts.len()
            invariant
                i <= experts@.len(),
                self.wf(),
                self.policy == old(self).policy,
                self.gate_enabled == old(self).gate_enabled,
                self.tick == old(self).tick,
                self.slots@ == all_promoted(before, self.policy, self.tick, layer, experts@, experts@.take(i as int)),
            decreases experts@.len() - i,
        {
            assert(experts@.take(i + 1).drop_last() =~= experts@.take(i as int));
            self.promote(layer, experts, experts[i]);
            i = i + 1;
        }
        assert(experts@.take(i as int) =~= experts@);
        proof {
            if experts@.to_set().len() <= before.len() {
                law_forced_experts_are_in_the_pool(before, self.policy, self.tick, layer, experts@, experts@);
            }
        }
    }
}

proof fn lemma_empty_pool(slots: Seq<Option<Slot>>, policy: DeltaPolicy, tick: u64, layer: usize, experts: Seq<usize>)
    requires
        slots.len() == 0,
    ensures
        all_routed(slots, policy, tick, layer, experts) == slots,
    decreases experts.len(),
{
    if experts.len() > 0 {
        lemma_empty_pool(slots, policy, tick, layer, experts.drop_last());
    }
}

proof fn lemma_promotion_repeats_nothing(before: Seq<Option<Slot>>, after: Seq<Option<Slot>>, i: int, layer: usize, expert: usize)
    requires
        no_repeats(before),
        !holds(before, layer, expert),
        0 <= i < before.len(),
        after == before.update(i, after[i]),
        holds_at(after, i, layer, expert),
    ensures
        no_repeats(after),
{
    assert forall|a: int, b: int, l: usize, e: usize| 0 <= a < after.len() && 0 <= b < after.len()
        && #[trigger] holds_at(after, a, l, e) && #[trigger] holds_at(after, b, l, e) implies a == b by {
        if a != i && b != i {
            assert(holds_at(before, a, l, e) && holds_at(before, b, l, e));
        } else if a != i {
            assert(holds_at(before, a, l, e));
        } else if b != i {
            assert(holds_at(before, b, l, e));
        }
    }
}

/// In a full pool one slot makes room before all others.
proof fn lemma_next_slot_exists(slots: Seq<Option<Slot>>, policy: DeltaPolicy, layer: usize, kept: Seq<usize>, n: int) -> (best: int)
    requires
        0 < n <= slots.len(),
        forall|j: int| 0 <= j < slots.len() ==> (#[trigger] slots[j]) is Some,
    ensures
        0 <= best < n,
        forall|j: int| 0 <= j < n ==> #[trigger] yields_before(slots, policy, layer, kept, best, j),
    decreases n,
{
    if n == 1 {
        0
    } else {
        let b = lemma_next_slot_exists(slots, policy, layer, kept, n - 1);
        if yields_before(slots, policy, layer, kept, b, n - 1) {
            b
        } else {
            assert forall|j: int| 0 <= j < n implies #[trigger] yields_before(slots, policy, layer, kept, n - 1, j) by {
                if j < n - 1 {
                    assert(yields_before(slots, policy, layer, kept, b, j));
                }
            }
            n - 1
        }
    }
}

proof fn lemma_first_free(slots: Seq<Option<Slot>>, n: int) -> (i: int)
    requires
        0 <= n < slots.len(),
        slots[n] is None,
    ensures
        0 <= i <= n,
        slots[i] is None,
        forall|j: int| 0 <= j < i ==> (#[trigger] slots[j]) is Some,
    decreases n,
{
    if exists|j: int| 0 <= j < n && (#[trigger] slots[j]) is None {
        let j = choose|j: int| 0 <= j < n && (#[trigger] slots[j]) is None;
        lemma_first_free(slots, j)
    } else {
        n
    }
}

/// The next slot of a pool with slots is a free one, if there is any.
proof fn lemma_next_slot(slots: Seq<Option<Slot>>, policy: DeltaPolicy, layer: usize, kept: Seq<usize>)
    requires
        slots.len() > 0,
    ensures
        is_next_slot(slots, policy, layer, kept, next_slot(slots, policy, layer, kept)),
        (exists|j: int| 0 <= j < slots.len() && (#[trigger] slots[j]) is None) ==> slots[next_slot(slots, policy, layer, kept)] is None,
{
    let i = if exists|j: int| 0 <= j < slots.len() && (#[trigger] slots[j]) is None {
        lemma_first_free(slots, choose|j: int| 0 <= j < slots.len() && (#[trigger] slots[j]) is None)
    } else {
        lemma_next_slot_exists(slots, policy, layer, kept, slots.len() as int)
    };
    assert(is_next_slot(slots, policy, layer, kept, i));
    lemma_next_slot_unique(slots, policy, layer, kept, i);
}

/// A promotion brings the expert in, keeps the size of the pool, and costs at
/// most one other expert its place: the one that makes room before all
/// others, and only when no slot is free.
pub proof fn law_promotion_makes_room_at_most_once(slots: Seq<Option<Slot>>, policy: DeltaPolicy, tick: u64, layer: usize, kept: Seq<usize>, expert: usize)
    requires
        slots.len() > 0,
        no_repeats(slots),
    ensures
        ({
            let after = promoted(slots, policy, tick, layer, kept, expert);
            let i = next_slot(slots, policy, layer, kept);
            &&& holds(after, layer, expert)
            &&& after.len() == slots.len()
            &&& no_repeats(after)
            &&& !holds(slots, layer, expert) ==> is_next_slot(slots, policy, layer, kept, i)
            &&& forall|j: int| 0 <= j < slots.len() && (holds(slots, layer, expert) || j != i) ==> #[trigger] after[j] == slots[j]
            &&& (exists|j: int| 0 <= j < slots.len() && (#[trigger] slots[j]) is None) && !holds(slots, layer, expert)
                ==> slots[i] is None
        }),
{
    if !holds(slots, layer, expert) {
        lemma_next_slot(slots, policy, layer, kept);
        let i = next_slot(slots, policy, layer, kept);
        let after = promoted(slots, policy, tick, layer, kept, expert);
        assert(holds_at(after, i, layer, expert));
        lemma_promotion_repeats_nothing(slots, after, i, layer, expert);
    }
}

/// A pool that holds an expert of the kept ones in every slot has fewer slots
/// than there are kept experts, if it lacks one of them.
proof fn lemma_kept_experts_outnumber_slots(slots: Seq<Option<Slot>>, layer: usize, kept: Seq<usize>, expert: usize)
    requires
        no_repeats(slots),
        forall|j: int| 0 <= j < slots.len() ==> is_kept(#[trigger] slots[j], layer, kept),
        kept.contains(expert),
        !holds(slots, layer, expert),
    ensures
        slots.len() < kept.to_set().len(),
{
    let held = Seq::new(slots.len(), |j: int| slots[j]->0.expert);
    assert forall|a: int, b: int| 0 <= a < held.len() && 0 <= b < held.len() && a != b implies held[a] != held[b] by {
        assert(is_kept(slots[a], layer, kept) && is_kept(slots[b], layer, kept));
        assert(holds_at(slots, a, layer, held[a]));
        assert(holds_at(slots, b, layer, held[b]));
    }
    held.unique_seq_to_set();
    let others = kept.to_set().remove(expert);
    assert forall|e: usize| held.to_set().contains(e) implies others.contains(e) by {
        let j = choose|j: int| 0 <= j < held.len() && held[j] == e;
        assert(is_kept(slots[j], layer, kept));
        assert(holds_at(slots, j, layer, e));
    }
    kept.lemma_cardinality_of_set();
    vstd::set_lib::lemma_len_subset(held.to_set(), others);
}

/// Experts that are forced into a pool are all in it afterwards, if the kept
/// ones, to which they belong, fit it.
pub proof fn law_forced_experts_are_in_the_pool(slots: Seq<Option<Slot>>, policy: DeltaPolicy, tick: u64, layer: usize, kept: Seq<usize>, experts: Seq<usize>)
    requires
        no_repeats(slots),
        kept.to_set().len() <= slots.len(),
        forall|e: usize| experts.contains(e) ==> kept.contains(e),
    ensures
        ({
            let after = all_promoted(slots, policy, tick, layer, kept, experts);
            &&& after.len() == slots.len()
            &&& no_repeats(after)
            &&& forall|e: usize| experts.contains(e) ==> #[trigger] holds(after, layer, e)
            &&& forall|e: usize| kept.contains(e) && holds(slots, layer, e) ==> #[trigger] holds(after, layer, e)
        }),
    decreases experts.len(),
{
    if experts.len() > 0 {
        let first = experts.drop_last();
        let last = experts.last();
        assert(experts.contains(last));
        assert forall|e: usize| first.contains(e) implies kept.contains(e) by {
            let k = choose|k: int| 0 <= k < first.len() && first[k] == e;
            assert(experts[k] == e);
        }
        law_forced_experts_are_in_the_pool(slots, policy, tick, layer, kept, first);
        let before = all_promoted(slots, policy, tick, layer, kept, first);
        let after = promoted(before, policy, tick, layer, kept, last);
        if slots.len() == 0 {
            kept.lemma_cardinality_of_set();
            assert(kept.to_set().contains(last));
            assert(kept.to_set().len() > 0);
        }
        law_promotion_makes_room_at_most_once(before, policy, tick, layer, kept, last);
        let i = next_slot(before, policy, layer, kept);
        assert forall|e: usize| kept.contains(e) && holds(before, layer, e) implies #[trigger] holds(after, layer, e) by {
            let j = choose|j: int| 0 <= j < before.len() && holds_at(before, j, layer, e);
            if !holds(before, layer, last) {
                if j == i {
                    assert forall|k: int| 0 <= k < before.len() implies is_kept(#[trigger] before[k], layer, kept) by {
                        assert(yields_before(before, policy, layer, kept, i, k));
                    }
                    lemma_kept_experts_outnumber_slots(before, layer, kept, last);
                }
                assert(holds_at(after, j, layer, e));
            }
        }
        assert forall|e: usize| experts.contains(e) implies #[trigger] holds(after, layer, e) by {
            if e != last {
                let k = choose|k: int| 0 <= k < experts.len() && experts[k] == e;
                assert(first[k] == e);
                assert(first.contains(e));
                assert(holds(before, layer, e));
            }
        }
    }
}

/// Under [`DeltaPolicy::Need`] routing never changes which experts are in the
/// pool.
pub proof fn law_need_policy_only_counts(slots: Seq<Option<Slot>>, tick: u64, layer: usize, experts: Seq<usize>, l: usize, e: usize)
    ensures
        holds(all_routed(slots, DeltaPolicy::Need, tick, layer, experts), l, e) == holds(slots, l, e),
        all_routed(slots, DeltaPolicy::Need, tick, layer, experts).len() == slots.len(),
    decreases experts.len(),
{
    if experts.len() > 0 {
        let before = all_routed(slots, DeltaPolicy::Need, tick, layer, experts.drop_last());
        let after = routed(before, DeltaPolicy::Need, tick, layer, experts.last());
        law_need_policy_only_counts(slots, tick, layer, experts.drop_last(), l, e);
        assert forall|i: int| 0 <= i < before.len() implies holds_at(after, i, l, e) == holds_at(before, i, l, e) by {}
        if holds(before, l, e) {
            let i = choose|i: int| 0 <= i < before.len() && holds_at(before, i, l, e);
            assert(holds_at(after, i, l, e));
        }
        if holds(after, l, e) {
            let i = choose|i: int| 0 <= i < after.len() && holds_at(after, i, l, e);
            assert(holds_at(before, i, l, e));
        }
    }
}

/// Only the names of the two eager policies mean them, in any case.
pub proof fn law_policies_have_names(value: Option<&str>, r: DeltaPolicy)
    requires
        call_ensures(DeltaPolicy::from_setting, (value,), r),
    ensures
        r == DeltaPolicy::Freq <==> (value matches Some(v) && lowercase_of(v@) == "freq"@),
        r == DeltaPolicy::Lru <==> (value matches Some(v) && lowercase_of(v@) == "lru"@),
        value is None ==> r == DeltaPolicy::Need,
{
    reveal_strlit("freq");
    reveal_strlit("lru");
    assert("freq"@.len() != "lru"@.len());
}

/// A switch is off exactly where it says `0` or, in any case, `false`, or says
/// nothing and is off by default.
pub proof fn law_switches_are_off_by_name(value: Option<&str>, default: bool, r: bool)
    requires
        call_ensures(read_switch, (value, default), r),
    ensures
        value is None ==> r == default,
        value matches Some(v) ==> (!r <==> v@ == "0"@ || (v@.len() == 5 && forall|i: int|
            0 <= i < 5 ==> ascii_lower_char(#[trigger] v@[i]) == "false"@[i])),
{
    if let Some(v) = value {
        reveal_strlit("false");
        let small = v@.map_values(|c: char| ascii_lower_char(c));
        if v@.len() == 5 && (forall|i: int| 0 <= i < 5 ==> ascii_lower_char(#[trigger] v@[i]) == "false"@[i]) {
            assert(small =~= "false"@);
        }
        if small == "false"@ {
            assert(v@.len() == small.len());
            assert forall|i: int| 0 <= i < 5 implies ascii_lower_char(#[trigger] v@[i]) == "false"@[i] by {
                assert(small[i] == ascii_lower_char(v@[i]));
            }
        }
    }
}

/// A pass is repeated exactly where the switch is on and confidence is low. An
/// expert is promoted where some slot holds it. A new pool has its slots free.
pub proof fn law_replays_and_lookups(
    capacity: usize,
    policy: DeltaPolicy,
    on: bool,
    m: MoeW2DeltaManager,
    low: bool,
    replay: bool,
    q: MoeW2DeltaManager,
    layer: usize,
    expert: usize,
    found: bool,
    size: usize,
    i: int,
)
    requires
        call_ensures(MoeW2DeltaManager::new, (capacity, policy, on), m),
        call_ensures(MoeW2DeltaManager::should_replay, (&m, low), replay),
        call_ensures(MoeW2DeltaManager::is_promoted, (&q, layer, expert), found),
        call_ensures(MoeW2DeltaManager::capacity, (&q,), size),
    ensures
        m.slots@.len() == capacity && m.policy == policy && m.tick == 0,
        0 <= i < capacity ==> m.slots@[i] is None,
        replay <==> on && low,
        0 <= i < q.slots@.len() && (q.slots@[i] matches Some(s) && s.layer == layer && s.expert == expert) ==> found,
        found ==> exists|j: int| 0 <= j < q.slots@.len() && (#[trigger] q.slots@[j] matches Some(s) && s.layer == layer && s.expert
            == expert),
        size == q.slots@.len(),
{
    if 0 <= i < q.slots@.len() && (q.slots@[i] matches Some(s) && s.layer == layer && s.expert == expert) {
        assert(holds_at(q.slots@, i, layer, expert));
    }
    if found {
        let j = choose|j: int| 0 <= j < q.slots@.len() && holds_at(q.slots@, j, layer, expert);
        assert(q.slots@[j] is Some);
    }
}

/// The routing of an expert that slot `i` holds counts it there, at the next
/// tick, and changes no other slot.
pub proof fn law_routing_counts_held_experts(before: MoeW2DeltaManager, layer: usize, experts: &[usize], i: int, j: int)
    requires
        before.wf(),
        experts@.len() == 1,
        0 <= i < before.slots@.len(),
        before.slots@[i] matches Some(s) && s.layer == layer && s.expert == experts@[0] && s.hits < u64::MAX,
        before.tick < u64::MAX,
        0 <= j < before.slots@.len(),
    ensures
        forall|s: &mut MoeW2DeltaManager, u: ()| *s == before && #[trigger] call_ensures(
            MoeW2DeltaManager::observe,
            (s, layer, experts),
            u,
        ) ==> {
            &&& final(s).tick == before.tick + 1
            &&& final(s).slots@.len() == before.slots@.len()
            &&& final(s).slots@[i] matches Some(n) && n.layer == layer && n.expert == experts@[0] && n.hits == before.slots@[i]->0.hits + 1
                && n.last_tick == before.tick + 1
            &&& j != i ==> final(s).slots@[j] == before.slots@[j]
        },
{
    reveal_with_fuel(all_routed, 2);
    assert(experts@.drop_last() =~= Seq::<usize>::empty());
    assert(holds_at(before.slots@, i, layer, experts@[0]));
    if j != i {
        assert(!holds_at(before.slots@, j, layer, experts@[0]));
    }
}

/// Whether `slot` took one place of the pool and nothing else changed: the first
/// free place, or in a full pool the first of those least used, by hits or by
/// the last tick.
pub open spec fn least_used_yields(before: Seq<Option<Slot>>, after: Seq<Option<Slot>>, by_hits: bool, slot: Slot) -> bool {
    exists|i: int| {
        &&& 0 <= i < before.len()
        &&& (#[trigger] after[i]) == Some(slot)
        &&& after.len() == before.len()
        &&& forall|k: int| 0 <= k < before.len() && k != i ==> #[trigger] after[k] == before[k]
        &&& forall|k: int| 0 <= k < i ==> (#[trigger] before[k]) is Some
        &&& before[i] matches Some(gone) ==> forall|k: int| 0 <= k < before.len() ==> {
            &&& (#[trigger] before[k]) matches Some(other)
            &&& by_hits ==> gone.hits <= other.hits && (k < i ==> gone.hits < other.hits)
            &&& !by_hits ==> gone.last_tick <= other.last_tick && (k < i ==> gone.last_tick < other.last_tick)
        }
    }
}

/// The routing of an expert that no slot holds changes nothing where promotions
/// wait for low confidence. Else it goes to slot `i` with one hit: the first
/// free slot, or in a full pool the first of those least used, by hits or by the
/// last tick as the policy says.
pub proof fn law_routing_promotes_new_experts(before: MoeW2DeltaManager, layer: usize, experts: &[usize])
    requires
        before.wf(),
        experts@.len() == 1,
        before.slots@.len() > 0,
        before.tick < u64::MAX,
        forall|k: int| 0 <= k < before.slots@.len() && (#[trigger] before.slots@[k]) is Some
            ==> before.slots@[k]->0.layer != layer || before.slots@[k]->0.expert != experts@[0],
    ensures
        forall|s: &mut MoeW2DeltaManager, u: ()| *s == before && #[trigger] call_ensures(
            MoeW2DeltaManager::observe,
            (s, layer, experts),
            u,
        ) ==> {
            let (old_slots, now) = (before.slots@, final(s).slots@);
            &&& before.policy == DeltaPolicy::Need ==> now == old_slots
            &&& before.policy != DeltaPolicy::Need ==> least_used_yields(
                old_slots,
                now,
                before.policy == DeltaPolicy::Freq,
                (Slot { layer, expert: experts@[0], hits: 1, last_tick: (before.tick + 1) as u64 }),
            )
        },
{
    reveal_with_fuel(all_routed, 2);
    let e = experts@[0];
    let slots = before.slots@;
    assert(experts@.drop_last() =~= Seq::<usize>::empty());
    assert(!holds(slots, layer, e)) by {
        if holds(slots, layer, e) {
            let k = choose|k: int| 0 <= k < slots.len() && holds_at(slots, k, layer, e);
            assert(slots[k] is Some);
        }
    }
    lemma_next_slot(slots, before.policy, layer, Seq::empty());
    let i = next_slot(slots, before.policy, layer, Seq::empty());
    let tick = (before.tick + 1) as u64;
    let now = routed(slots, before.policy, tick, layer, e);
    assert(all_routed(slots, before.policy, tick, layer, experts@) == now);
    if before.policy != DeltaPolicy::Need {
        let slot = Slot { layer, expert: e, hits: 1, last_tick: tick };
        assert(now[i] == Some(slot));
        assert forall|k: int| 0 <= k < slots.len() && k != i implies #[trigger] now[k] == slots[k] by {}
        assert forall|k: int| 0 <= k < slots.len() && slots[i] is Some implies (#[trigger] slots[k]) is Some && yields_before(
            slots,
            before.policy,
            layer,
            Seq::empty(),
            i,
            k,
        ) by {}
        assert(least_used_yields(slots, now, before.policy == DeltaPolicy::Freq, slot));
    }
}

/// Whatever is routed, a slot afterwards is as it was, or was used at the new
/// tick for one of the experts routed; and the last of these is in a pool that
/// has slots and does not wait for low confidence.
pub proof fn law_routing_touches_routed_experts_only(before: MoeW2DeltaManager, layer: usize, experts: &[usize], i: int)
    requires
        before.wf(),
        before.tick < u64::MAX,
        0 <= i < before.slots@.len(),
        experts@.len() > 0,
    ensures
        forall|s: &mut MoeW2DeltaManager, u: ()| *s == before && #[trigger] call_ensures(
            MoeW2DeltaManager::observe,
            (s, layer, experts),
            u,
        ) ==> {
            let now = final(s).slots@;
            &&& now.len() == before.slots@.len()
            &&& now[i] == before.slots@[i] || (now[i] matches Some(n) && n.layer == layer && experts@.contains(n.expert) && n.last_tick
                == before.tick + 1)
            &&& before.policy != DeltaPolicy::Need ==> exists|k: int|
                0 <= k < now.len() && (#[trigger] now[k] matches Some(n) && n.layer == layer && n.expert == experts@.last() && n.last_tick
                    == before.tick + 1)
            &&& final(s).policy == before.policy && final(s).gate_enabled == before.gate_enabled
        },
{
    let tick = (before.tick + 1) as u64;
    lemma_routed(before.slots@, before.policy, tick, layer, experts@, i);
}

proof fn lemma_routed(slots: Seq<Option<Slot>>, policy: DeltaPolicy, tick: u64, layer: usize, experts: Seq<usize>, i: int)
    requires
        0 <= i < slots.len(),
    ensures
        ({
            let now = all_routed(slots, policy, tick, layer, experts);
            &&& now.len() == slots.len()
            &&& now[i] == slots[i] || (now[i] matches Some(n) && n.layer == layer && experts.contains(n.expert) && n.last_tick == tick)
            &&& policy != DeltaPolicy::Need && experts.len() > 0 ==> exists|k: int|
                0 <= k < now.len() && (#[trigger] now[k] matches Some(n) && n.layer == layer && n.expert == experts.last() && n.last_tick
                    == tick)
        }),
    decreases experts.len(),
{
    if experts.len() > 0 {
        let (first, e) = (experts.drop_last(), experts.last());
        lemma_routed(slots, policy, tick, layer, first, i);
        let mid = all_routed(slots, policy, tick, layer, first);
        let now = routed(mid, policy, tick, layer, e);
        assert forall|x: usize| first.contains(x) implies experts.contains(x) by {
            let k = choose|k: int| 0 <= k < first.len() && first[k] == x;
            assert(experts[k] == x);
        }
        assert(experts[experts.len() - 1] == e);
        if holds(mid, layer, e) {
            let k = choose|k: int| 0 <= k < mid.len() && holds_at(mid, k, layer, e);
            assert(now[k] matches Some(n) && n.layer == layer && n.expert == e && n.last_tick == tick);
        } else if policy != DeltaPolicy::Need {
            lemma_next_slot(mid, policy, layer, Seq::empty());
            let k = next_slot(mid, policy, layer, Seq::empty());
            assert(now[k] matches Some(n) && n.layer == layer && n.expert == e && n.last_tick == tick);
        }
    }
}

/// Times that an expert occurs in a list.
pub open spec fn occurrences(experts: Seq<usize>, expert: usize) -> nat {
    experts.filter(|e: usize| e == expert).len()
}

/// Where promotions wait for low confidence, a slot of the layer has one hit
/// more for each time its expert is routed, and every other slot stays.
pub proof fn law_waiting_pools_count_routings(before: MoeW2DeltaManager, layer: usize, experts: &[usize], i: int)
    requires
        before.wf(),
        before.policy == DeltaPolicy::Need,
        before.tick < u64::MAX,
        0 <= i < before.slots@.len(),
        before.slots@[i] matches Some(s) ==> s.hits + experts@.len() <= u64::MAX,
    ensures
        forall|s: &mut MoeW2DeltaManager, u: ()| *s == before && #[trigger] call_ensures(
            MoeW2DeltaManager::observe,
            (s, layer, experts),
            u,
        ) ==> {
            let (was, now) = (before.slots@[i], final(s).slots@[i]);
            &&& was is None ==> now is None
            &&& was matches Some(w) ==> {
                &&& now matches Some(n) && n.layer == w.layer && n.expert == w.expert
                &&& w.layer == layer ==> now->0.hits == w.hits + occurrences(experts@, w.expert)
                &&& w.layer == layer && occurrences(experts@, w.expert) > 0 ==> now->0.last_tick == before.tick + 1
                &&& w.layer != layer || occurrences(experts@, w.expert) == 0 ==> now == was
            }
        },
{
    lemma_counted(before.slots@, (before.tick + 1) as u64, layer, experts@, i);
}

proof fn lemma_counted(slots: Seq<Option<Slot>>, tick: u64, layer: usize, experts: Seq<usize>, i: int)
    requires
        0 <= i < slots.len(),
        slots[i] matches Some(s) ==> s.hits + experts.len() <= u64::MAX,
    ensures
        ({
            let (was, now) = (slots[i], all_routed(slots, DeltaPolicy::Need, tick, layer, experts)[i]);
            &&& all_routed(slots, DeltaPolicy::Need, tick, layer, experts).len() == slots.len()
            &&& was is None ==> now is None
            &&& was matches Some(w) ==> {
                let n = occurrences(experts, w.expert);
                &&& n <= experts.len()
                &&& now == (if w.layer == layer && n > 0 {
                    Some(Slot { layer, expert: w.expert, hits: (w.hits + n) as u64, last_tick: tick })
                } else {
                    was
                })
            }
        }),
    decreases experts.len(),
{
    reveal(Seq::filter);
    if experts.len() > 0 {
        lemma_counted(slots, tick, layer, experts.drop_last(), i);
        let mid = all_routed(slots, DeltaPolicy::Need, tick, layer, experts.drop_last());
        if mid[i] is Some && mid[i]->0.layer == layer && mid[i]->0.expert == experts.last() {
            assert(holds_at(mid, i, layer, experts.last()));
        }
    }
}

/// Forcing one expert into a pool that does not hold it puts it into slot `i`
/// with one hit at the present tick: the first free slot, or in a full pool the
/// first of those least used. Forcing one that is there changes nothing.
pub proof fn law_forcing_promotes(before: MoeW2DeltaManager, layer: usize, experts: &[usize])
    requires
        before.wf(),
        experts@.len() == 1,
        before.slots@.len() > 0,
    ensures
        forall|s: &mut MoeW2DeltaManager, u: ()| *s == before && #[trigger] call_ensures(
            MoeW2DeltaManager::force_promote,
            (s, layer, experts),
            u,
        ) ==> {
            let (old_slots, now) = (before.slots@, final(s).slots@);
            &&& final(s).tick == before.tick && now.len() == old_slots.len()
            &&& (exists|k: int| 0 <= k < old_slots.len() && (#[trigger] old_slots[k] matches Some(h) && h.layer == layer && h.expert
                == experts@[0])) ==> now == old_slots
            &&& (forall|k: int| 0 <= k < old_slots.len() ==> !(#[trigger] old_slots[k] matches Some(h) && h.layer == layer && h.expert
                == experts@[0])) ==> least_used_yields(
                old_slots,
                now,
                before.policy == DeltaPolicy::Freq,
                (Slot { layer, expert: experts@[0], hits: 1, last_tick: before.tick }),
            )
        },
{
    reveal_with_fuel(all_promoted, 2);
    let e = experts@[0];
    let slots = before.slots@;
    assert(experts@.drop_last() =~= Seq::<usize>::empty());
    if holds(slots, layer, e) {
        let k = choose|k: int| 0 <= k < slots.len() && holds_at(slots, k, layer, e);
        assert(slots[k] matches Some(h) && h.layer == layer && h.expert == e);
    } else {
        assert forall|k: int| 0 <= k < slots.len() implies !holds_at(slots, k, layer, e) by {}
        lemma_next_slot(slots, before.policy, layer, experts@);
        let i = next_slot(slots, before.policy, layer, experts@);
        let now = promoted(slots, before.policy, before.tick, layer, experts@, e);
        assert(all_promoted(slots, before.policy, before.tick, layer, experts@, experts@) == now);
        let slot = Slot { layer, expert: e, hits: 1, last_tick: before.tick };
        assert(now[i] == Some(slot));
        assert forall|k: int| 0 <= k < slots.len() && k != i implies #[trigger] now[k] == slots[k] by {}
        assert forall|k: int| 0 <= k < slots.len() implies !is_kept(#[trigger] slots[k], layer, experts@) by {
            if is_kept(slots[k], layer, experts@) {
                assert(holds_at(slots, k, layer, e));
            }
        }
        assert forall|k: int| 0 <= k < slots.len() && slots[i] is Some implies (#[trigger] slots[k]) is Some && yields_before(
            slots,
            before.policy,
            layer,
            experts@,
            i,
            k,
        ) by {}
        assert(least_used_yields(slots, now, before.policy == DeltaPolicy::Freq, slot));
    }
}

/// Forced experts that fit a pool are all in it afterwards, and those of them
/// that were in it keep their slots as they were.
pub proof fn law_forced_experts_stay(before: MoeW2DeltaManager, layer: usize, experts: &[usize], i: int, e: usize)
    requires
        before.wf(),
        experts@.to_set().len() <= before.slots@.len(),
        experts@.contains(e),
        0 <= i < before.slots@.len(),
    ensures
        forall|s: &mut MoeW2DeltaManager, u: ()| *s == before && #[trigger] call_ensures(
            MoeW2DeltaManager::force_promote,
            (s, layer, experts),
            u,
        ) ==> {
            let now = final(s).slots@;
            &&& exists|k: int| 0 <= k < now.len() && (#[trigger] now[k] matches Some(h) && h.layer == layer && h.expert == e)
            &&& (before.slots@[i] matches Some(h) && h.layer == layer && experts@.contains(h.expert)) ==> now[i] == before.slots@[i]
        },
{
    let now = all_promoted(before.slots@, before.policy, before.tick, layer, experts@, experts@);
    law_forced_experts_are_in_the_pool(before.slots@, before.policy, before.tick, layer, experts@, experts@);
    lemma_kept_slots_stay(before.slots@, before.policy, before.tick, layer, experts@, experts@, i);
    assert(holds(now, layer, e));
    let k = choose|k: int| 0 <= k < now.len() && holds_at(now, k, layer, e);
    assert(now[k] matches Some(h) && h.layer == layer && h.expert == e);
}

proof fn lemma_kept_slots_stay(slots: Seq<Option<Slot>>, policy: DeltaPolicy, tick: u64, layer: usize, kept: Seq<usize>, experts: Seq<usize>, i: int)
    requires
        no_repeats(slots),
        kept.to_set().len() <= slots.len(),
        forall|e: usize| experts.contains(e) ==> kept.contains(e),
        0 <= i < slots.len(),
    ensures
        is_kept(slots[i], layer, kept) ==> all_promoted(slots, policy, tick, layer, kept, experts)[i] == slots[i],
    decreases experts.len(),
{
    if experts.len() > 0 && is_kept(slots[i], layer, kept) {
        let (first, last) = (experts.drop_last(), experts.last());
        assert(experts.contains(last));
        assert forall|e: usize| first.contains(e) implies kept.contains(e) by {
            let k = choose|k: int| 0 <= k < first.len() && first[k] == e;
            assert(experts[k] == e);
        }
        lemma_kept_slots_stay(slots, policy, tick, layer, kept, first, i);
        law_forced_experts_are_in_the_pool(slots, policy, tick, layer, kept, first);
        let before = all_promoted(slots, policy, tick, layer, kept, first);
        if !holds(before, layer, last) {
            lemma_next_slot(before, policy, layer, kept);
            let n = next_slot(before, policy, layer, kept);
            if n == i {
                assert forall|k: int| 0 <= k < before.len() implies is_kept(#[trigger] before[k], layer, kept) by {
                    assert(yields_before(before, policy, layer, kept, i, k));
                }
                lemma_kept_experts_outnumber_slots(before, layer, kept, last);
            }
        }
    }
}

} // verus!
