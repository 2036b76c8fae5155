//! Choice of the block that leaves a tier.

use vstd::prelude::*;

use crate::cache_residency::block::{CacheBlockId, CacheTier};
use crate::cache_residency::catalog::{CacheBlockRecord, CacheResidencyManager};
use crate::offload::CacheEvictionPolicy;

verus! {

/// The identity behind an optional reference.
pub open spec fn copied_id(id: Option<&CacheBlockId>) -> Option<CacheBlockId> {
    match id {
        Some(id) => Some(*id),
        None => None,
    }
}

/// How many blocks of a layer on one tier start later than a position.
pub open spec fn later_blocks(
    blocks: Seq<CacheBlockRecord>,
    tier: CacheTier,
    layer: usize,
    start: i64,
) -> nat
    decreases blocks.len(),
{
    if blocks.len() == 0 {
        0
    } else {
        let record = blocks.last();
        later_blocks(blocks.drop_last(), tier, layer, start) + if record.tier == tier
            && record.id.global_layer == layer && record.id.start > start {
            1nat
        } else {
            0nat
        }
    }
}

/// Whether a device block is among the most recent ones of its layer.
pub open spec fn is_recent(
    blocks: Seq<CacheBlockRecord>,
    tier: CacheTier,
    recent_per_layer: usize,
    record: CacheBlockRecord,
) -> bool {
    tier == CacheTier::Device && later_blocks(
        blocks,
        tier,
        record.id.global_layer,
        record.id.start,
    ) < recent_per_layer
}

/// Whether a block may leave the tier: nothing uses, protects or requires it.
pub open spec fn evictable(
    blocks: Seq<CacheBlockRecord>,
    tier: CacheTier,
    required: Option<CacheBlockId>,
    recent_per_layer: usize,
    record: CacheBlockRecord,
) -> bool {
    &&& record.tier == tier
    &&& record.leases == 0
    &&& record.pending_disk is None
    &&& required != Some(record.id)
    &&& !record.protected_prefix
    &&& !is_recent(blocks, tier, recent_per_layer, record)
}

/// The order in which blocks leave. Identity decides between equal accesses.
pub open spec fn leaves_before(
    policy: CacheEvictionPolicy,
    left: CacheBlockRecord,
    right: CacheBlockRecord,
) -> bool {
    let (left_first, left_second, right_first, right_second) = match policy {
        CacheEvictionPolicy::LeastRecentlyUsed => (
            left.last_access,
            left.access_count,
            right.last_access,
            right.access_count,
        ),
        CacheEvictionPolicy::LeastFrequentlyUsed => (
            left.access_count,
            left.last_access,
            right.access_count,
            right.last_access,
        ),
    };
    if left_first != right_first {
        left_first < right_first
    } else if left_second != right_second {
        left_second < right_second
    } else {
        crate::cache_residency::block::id_before(left.id, right.id)
    }
}

fn record_leaves_before(
    policy: CacheEvictionPolicy,
    left: &CacheBlockRecord,
    right: &CacheBlockRecord,
) -> (before: bool)
    ensures
        before == leaves_before(policy, *left, *right),
{
    match policy {
        CacheEvictionPolicy::LeastRecentlyUsed => {
            if left.last_access != right.last_access {
                left.last_access < right.last_access
            } else if left.access_count != right.access_count {
                left.access_count < right.access_count
            } else {
                left.id.precedes(&right.id)
            }
        },
        CacheEvictionPolicy::LeastFrequentlyUsed => {
            if left.access_count != right.access_count {
                left.access_count < right.access_count
            } else if left.last_access != right.last_access {
                left.last_access < right.last_access
            } else {
                left.id.precedes(&right.id)
            }
        },
    }
}

/// Whether a block, or none, is next to leave the tier.
pub open spec fn leaves_next(
    blocks: Seq<CacheBlockRecord>,
    policy: CacheEvictionPolicy,
    tier: CacheTier,
    required: Option<CacheBlockId>,
    recent_per_layer: usize,
    choice: Option<CacheBlockId>,
) -> bool {
    match choice {
        None => forall|i: int|
            0 <= i < blocks.len() ==> !evictable(
                blocks,
                tier,
                required,
                recent_per_layer,
                #[trigger] blocks[i],
            ),
        Some(id) => exists|i: int|
            {
                &&& 0 <= i < blocks.len()
                &&& (#[trigger] blocks[i]).id == id
                &&& evictable(blocks, tier, required, recent_per_layer, blocks[i])
                &&& forall|j: int|
                    0 <= j < blocks.len() && j != i && evictable(
                        blocks,
                        tier,
                        required,
                        recent_per_layer,
                        #[trigger] blocks[j],
                    ) ==> leaves_before(policy, blocks[i], blocks[j])
            },
    }
}

/// The block that leaves the tier next, if any may.
pub open spec fn picked(
    blocks: Seq<CacheBlockRecord>,
    policy: CacheEvictionPolicy,
    tier: CacheTier,
    required: Option<CacheBlockId>,
    recent_per_layer: usize,
) -> Option<CacheBlockId> {
    choose|choice: Option<CacheBlockId>|
        leaves_next(blocks, policy, tier, required, recent_per_layer, choice)
}

impl CacheResidencyManager {
    /// Whether a block, or none, is next to leave the tier.
    pub open spec fn eviction_choice(
        self,
        tier: CacheTier,
        required: Option<CacheBlockId>,
        recent_per_layer: usize,
        choice: Option<CacheBlockId>,
    ) -> bool {
        leaves_next(
            self.blocks@,
            self.options@.eviction_policy,
            tier,
            required,
            recent_per_layer,
            choice,
        )
    }

    fn count_later_blocks(&self, tier: CacheTier, layer: usize, start: i64) -> (count: usize)
        ensures
            count == later_blocks(self.blocks@, tier, layer, start),
    {
        let mut count: usize = 0;
        let mut index: usize = 0;
        while index < self.blocks.len()
            invariant
                index <= self.blocks@.len(),
                count <= index,
                count == later_blocks(self.blocks@.take(index as int), tier, layer, start),
            decreases self.blocks@.len() - index,
        {
            let record = &self.blocks[index];
            proof {
                assert(self.blocks@.take(index + 1).drop_last() =~= self.blocks@.take(
                    index as int,
                ));
            }
            if record.tier == tier && record.id.global_layer == layer && record.id.start > start {
                count = count + 1;
            }
            index = index + 1;
        }
        assert(self.blocks@.take(index as int) =~= self.blocks@);
        count
    }

    /// Whether the record at `index` may leave the tier.
    fn may_leave(
        &self,
        index: usize,
        tier: CacheTier,
        required: Option<&CacheBlockId>,
        recent_per_layer: usize,
    ) -> (leaves: bool)
        requires
            index < self.blocks@.len(),
        ensures
            leaves == evictable(
                self.blocks@,
                tier,
                copied_id(required),
                recent_per_layer,
                self.blocks@[index as int],
            ),
    {
        let record = &self.blocks[index];
        let is_required = match required {
            Some(id) => *id == record.id,
            None => false,
        };
        if record.tier != tier || record.leases != 0 || record.pending_disk.is_some() || is_required
            || record.protected_prefix {
            return false;
        }
        match tier {
            CacheTier::Device => self.count_later_blocks(
                tier,
                record.id.global_layer,
                record.id.start,
            ) >= recent_per_layer,
            _ => true,
        }
    }

    /// Chooses the block that leaves a tier: the least recently or least frequently
    /// used one that nothing uses, protects or requires.
    pub fn eviction_candidate(
        &self,
        tier: CacheTier,
        required: Option<&CacheBlockId>,
        recent_per_layer: usize,
    ) -> (choice: Option<CacheBlockId>)
        requires
            crate::cache_residency::catalog::blocks_ordered(self.blocks@),
        ensures
            self.eviction_choice(tier, copied_id(required), recent_per_layer, choice),
    {
        let policy = self.options.eviction_policy();
        let ghost blocks = self.blocks@;
        let ghost wanted = copied_id(required);
        let mut best: Option<usize> = None;
        let mut index: usize = 0;
        while index < self.blocks.len()
            invariant
                blocks == self.blocks@,
                wanted == copied_id(required),
                policy == self.options@.eviction_policy,
                crate::cache_residency::catalog::blocks_ordered(blocks),
                index <= blocks.len(),
                match best {
                    None => forall|j: int|
                        0 <= j < index ==> !evictable(
                            blocks,
                            tier,
                            wanted,
                            recent_per_layer,
                            #[trigger] blocks[j],
                        ),
                    Some(i) => {
                        &&& i < index
                        &&& evictable(blocks, tier, wanted, recent_per_layer, blocks[i as int])
                        &&& forall|j: int|
                            0 <= j < index && j != i && evictable(
                                blocks,
                                tier,
                                wanted,
                                recent_per_layer,
                                #[trigger] blocks[j],
                            ) ==> leaves_before(policy, blocks[i as int], blocks[j])
                    },
                },
            decreases blocks.len() - index,
        {
            if self.may_leave(index, tier, required, recent_per_layer) {
                match best {
                    None => {
                        best = Some(index);
                    },
                    Some(current) => {
                        proof {
                            assert(crate::cache_residency::block::id_before(
                                blocks[current as int].id,
                                blocks[index as int].id,
                            ));
                            crate::cache_residency::block::id_order_is_total(
                                blocks[current as int].id,
                                blocks[index as int].id,
                            );
                        }
                        if record_leaves_before(policy, &self.blocks[index], &self.blocks[current])
                        {
                            proof {
                                assert forall|j: int|
                                    0 <= j < index + 1 && j != index && evictable(
                                        blocks,
                                        tier,
                                        wanted,
                                        recent_per_layer,
                                        #[trigger] blocks[j],
                                    ) implies leaves_before(
                                    policy,
                                    blocks[index as int],
                                    blocks[j],
                                ) by {
                                    if j != current {
                                        leaving_order_is_transitive(
                                            policy,
                                            blocks[index as int],
                                            blocks[current as int],
                                            blocks[j],
                                        );
                                    }
                                }
                            }
                            best = Some(index);
                        }
                    },
                }
            }
            index = index + 1;
        }
        match best {
            Some(i) => {
                assert(self.blocks@[i as int].id == blocks[i as int].id);
                Some(self.blocks[i].id)
            },
            None => None,
        }
    }
}

/// The leaving order is transitive.
pub proof fn leaving_order_is_transitive(
    policy: CacheEvictionPolicy,
    a: CacheBlockRecord,
    b: CacheBlockRecord,
    c: CacheBlockRecord,
)
    requires
        leaves_before(policy, a, b),
        leaves_before(policy, b, c),
    ensures
        leaves_before(policy, a, c),
{
    if crate::cache_residency::block::id_before(a.id, b.id)
        && crate::cache_residency::block::id_before(b.id, c.id) {
        crate::cache_residency::block::id_order_is_transitive(a.id, b.id, c.id);
    }
}

/// The choice is deterministic: at most one block can be next to leave.
pub proof fn eviction_is_deterministic(
    manager: CacheResidencyManager,
    tier: CacheTier,
    required: Option<CacheBlockId>,
    recent_per_layer: usize,
    left: Option<CacheBlockId>,
    right: Option<CacheBlockId>,
)
    requires
        crate::cache_residency::catalog::blocks_ordered(manager.blocks@),
        manager.eviction_choice(tier, required, recent_per_layer, left),
        manager.eviction_choice(tier, required, recent_per_layer, right),
    ensures
        left == right,
{
    let blocks = manager.blocks@;
    let policy = manager.options@.eviction_policy;
    if left is Some && right is Some && left != right {
        let i = choose|i: int|
            {
                &&& 0 <= i < blocks.len()
                &&& (#[trigger] blocks[i]).id == left->Some_0
                &&& evictable(blocks, tier, required, recent_per_layer, blocks[i])
                &&& forall|j: int|
                    0 <= j < blocks.len() && j != i && evictable(
                        blocks,
                        tier,
                        required,
                        recent_per_layer,
                        #[trigger] blocks[j],
                    ) ==> leaves_before(policy, blocks[i], blocks[j])
            };
        let j = choose|j: int|
            {
                &&& 0 <= j < blocks.len()
                &&& (#[trigger] blocks[j]).id == right->Some_0
                &&& evictable(blocks, tier, required, recent_per_layer, blocks[j])
                &&& forall|k: int|
                    0 <= k < blocks.len() && k != j && evictable(
                        blocks,
                        tier,
                        required,
                        recent_per_layer,
                        #[trigger] blocks[k],
                    ) ==> leaves_before(policy, blocks[j], blocks[k])
            };
        assert(leaves_before(policy, blocks[i], blocks[j]));
        assert(leaves_before(policy, blocks[j], blocks[i]));
        leaving_order_is_transitive(policy, blocks[i], blocks[j], blocks[i]);
        crate::cache_residency::block::id_order_is_total(blocks[i].id, blocks[i].id);
    }
}

/// Whether a position holds the first block to leave among the first `count` ones.
spec fn first_to_leave(
    blocks: Seq<CacheBlockRecord>,
    policy: CacheEvictionPolicy,
    tier: CacheTier,
    required: Option<CacheBlockId>,
    recent_per_layer: usize,
    count: int,
    at: int,
) -> bool {
    &&& 0 <= at < count
    &&& evictable(blocks, tier, required, recent_per_layer, blocks[at])
    &&& forall|j: int|
        0 <= j < count && j != at && evictable(
            blocks,
            tier,
            required,
            recent_per_layer,
            #[trigger] blocks[j],
        ) ==> leaves_before(policy, blocks[at], blocks[j])
}

proof fn some_block_leaves_first(
    blocks: Seq<CacheBlockRecord>,
    policy: CacheEvictionPolicy,
    tier: CacheTier,
    required: Option<CacheBlockId>,
    recent_per_layer: usize,
    count: int,
) -> (first: Option<int>)
    requires
        crate::cache_residency::catalog::blocks_ordered(blocks),
        0 <= count <= blocks.len(),
    ensures
        match first {
            Some(at) => first_to_leave(
                blocks,
                policy,
                tier,
                required,
                recent_per_layer,
                count,
                at,
            ),
            None => forall|i: int|
                0 <= i < count ==> !evictable(
                    blocks,
                    tier,
                    required,
                    recent_per_layer,
                    #[trigger] blocks[i],
                ),
        },
    decreases count,
{
    if count == 0 {
        None
    } else {
        let last = count - 1;
        let earlier = some_block_leaves_first(
            blocks,
            policy,
            tier,
            required,
            recent_per_layer,
            last,
        );
        if !evictable(blocks, tier, required, recent_per_layer, blocks[last]) {
            earlier
        } else {
            match earlier {
                None => Some(last),
                Some(at) => {
                    assert(crate::cache_residency::block::id_before(blocks[at].id, blocks[last].id));
                    if leaves_before(policy, blocks[at], blocks[last]) {
                        Some(at)
                    } else {
                        assert forall|j: int|
                            0 <= j < count && j != last && evictable(
                                blocks,
                                tier,
                                required,
                                recent_per_layer,
                                #[trigger] blocks[j],
                            ) implies leaves_before(policy, blocks[last], blocks[j]) by {
                            if j != at {
                                assert(leaves_before(policy, blocks[at], blocks[j]));
                                leaving_order_is_transitive(
                                    policy,
                                    blocks[last],
                                    blocks[at],
                                    blocks[j],
                                );
                            }
                        }
                        Some(last)
                    }
                },
            }
        }
    }
}

/// There is always a choice, and the block that is chosen, if one is, may leave: it is on
/// the tier, nobody leases or requires it, no write or read of it is pending, and it is
/// neither protected nor recent.
pub proof fn evicted_blocks_may_leave(
    manager: CacheResidencyManager,
    tier: CacheTier,
    required: Option<CacheBlockId>,
    recent_per_layer: usize,
)
    requires
        crate::cache_residency::catalog::blocks_ordered(manager.blocks@),
    ensures
        manager.eviction_choice(
            tier,
            required,
            recent_per_layer,
            manager.eviction_pick(tier, required, recent_per_layer),
        ),
        manager.eviction_pick(tier, required, recent_per_layer) matches Some(id) ==> {
            &&& manager.has_block(id)
            &&& evictable(manager.blocks@, tier, required, recent_per_layer, manager.block(id))
        },
{
    let blocks = manager.blocks@;
    let policy = manager.options@.eviction_policy;
    let first = some_block_leaves_first(
        blocks,
        policy,
        tier,
        required,
        recent_per_layer,
        blocks.len() as int,
    );
    let choice = match first {
        Some(at) => Some(blocks[at].id),
        None => None,
    };
    assert(leaves_next(blocks, policy, tier, required, recent_per_layer, choice));
    let picked = manager.eviction_pick(tier, required, recent_per_layer);
    assert(leaves_next(blocks, policy, tier, required, recent_per_layer, picked));
    if let Some(id) = picked {
        let i = choose|i: int|
            {
                &&& 0 <= i < blocks.len()
                &&& (#[trigger] blocks[i]).id == id
                &&& evictable(blocks, tier, required, recent_per_layer, blocks[i])
                &&& forall|j: int|
                    0 <= j < blocks.len() && j != i && evictable(
                        blocks,
                        tier,
                        required,
                        recent_per_layer,
                        #[trigger] blocks[j],
                    ) ==> leaves_before(policy, blocks[i], blocks[j])
            };
        manager.block_index_is(i);
    }
}

} // verus!
