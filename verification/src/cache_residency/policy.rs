//! What the policies of the residency manager amount to: which blocks leave a tier, which
//! arrays are taken in, what a lease counts, and when bytes are moved.

use vstd::prelude::*;

use crate::cache_residency::block::{
    CacheBlockArrays, CacheBlockId, CacheRepresentation, CacheTier,
};
use crate::cache_residency::catalog::{
    CacheBlockRecord, CacheResidencyManager, CacheTail, HostWriteReservation,
};
use crate::cache_residency::demotion::{DemotionDecision, RebalanceDecision};
use crate::cache_residency::error::CacheFailure;
use crate::cache_residency::lease::{DiskReply, DiskSubmissionOutcome, ReadSettlement};
use crate::cache_residency::report::Part;
use crate::cache_residency::worker::{DiskOperationKey, DiskTicket};
use crate::offload::CacheEvictionPolicy;

verus! {

/// The blocks of a layer on a tier that start later than a position.
pub open spec fn later_ones(
    blocks: Seq<CacheBlockRecord>,
    tier: CacheTier,
    layer: usize,
    start: i64,
) -> Seq<CacheBlockRecord> {
    blocks.filter(
        |record: CacheBlockRecord|
            record.tier == tier && record.id.global_layer == layer && record.id.start > start,
    )
}

/// How many blocks are later is the number of the later ones.
pub proof fn later_blocks_are_counted(
    blocks: Seq<CacheBlockRecord>,
    tier: CacheTier,
    layer: usize,
    start: i64,
)
    ensures
        crate::cache_residency::eviction::later_blocks(blocks, tier, layer, start) == later_ones(
            blocks,
            tier,
            layer,
            start,
        ).len(),
    decreases blocks.len(),
{
    reveal(Seq::filter);
    if blocks.len() > 0 {
        later_blocks_are_counted(blocks.drop_last(), tier, layer, start);
    }
}

/// Whether a block is free to leave a tier: it is there, nobody leases or requires it,
/// nothing is read or written of it, it is not of a protected prefix, and on the device
/// enough later blocks of its layer stay.
pub open spec fn free_to_leave(
    blocks: Seq<CacheBlockRecord>,
    tier: CacheTier,
    required: Option<CacheBlockId>,
    recent_per_layer: usize,
    record: CacheBlockRecord,
) -> bool {
    &&& record.tier == tier
    &&& record.leases == 0
    &&& record.pending_disk is None
    &&& required != Some(record.id)
    &&& record.protected_prefix == false
    &&& tier == CacheTier::Device ==> later_ones(
        blocks,
        tier,
        record.id.global_layer,
        record.id.start,
    ).len() >= recent_per_layer
}

/// The block that leaves a tier is free to leave, and of all that are it was used least:
/// longest ago, or least often, as the policy says, and between equals the other way
/// decides. Where none leaves, none is free to.
pub proof fn the_least_used_block_leaves(
    manager: CacheResidencyManager,
    tier: CacheTier,
    required: Option<CacheBlockId>,
    recent_per_layer: usize,
    choice: Option<CacheBlockId>,
    other: int,
) -> (chosen: int)
    requires
        manager.eviction_choice(tier, required, recent_per_layer, choice),
        0 <= other < manager.blocks@.len(),
    ensures
        choice is None ==> !free_to_leave(
            manager.blocks@,
            tier,
            required,
            recent_per_layer,
            manager.blocks@[other],
        ),
        choice matches Some(id) ==> {
            let left = manager.blocks@[chosen];
            let stays = manager.blocks@[other];
            &&& 0 <= chosen < manager.blocks@.len()
            &&& left.id == id
            &&& free_to_leave(manager.blocks@, tier, required, recent_per_layer, left)
            &&& free_to_leave(manager.blocks@, tier, required, recent_per_layer, stays) ==> (
            match manager.options@.eviction_policy {
                CacheEvictionPolicy::LeastRecentlyUsed => {
                    &&& left.last_access <= stays.last_access
                    &&& left.last_access == stays.last_access ==> left.access_count
                        <= stays.access_count
                },
                CacheEvictionPolicy::LeastFrequentlyUsed => {
                    &&& left.access_count <= stays.access_count
                    &&& left.access_count == stays.access_count ==> left.last_access
                        <= stays.last_access
                },
            })
        },
{
    let blocks = manager.blocks@;
    let policy = manager.options@.eviction_policy;
    later_blocks_are_counted(
        blocks,
        tier,
        blocks[other].id.global_layer,
        blocks[other].id.start,
    );
    match choice {
        None => 0,
        Some(id) => {
            let chosen = choose|i: int|
                {
                    &&& 0 <= i < blocks.len()
                    &&& (#[trigger] blocks[i]).id == id
                    &&& crate::cache_residency::eviction::evictable(
                        blocks,
                        tier,
                        required,
                        recent_per_layer,
                        blocks[i],
                    )
                    &&& forall|j: int|
                        0 <= j < blocks.len() && j != i
                            && crate::cache_residency::eviction::evictable(
                            blocks,
                            tier,
                            required,
                            recent_per_layer,
                            #[trigger] blocks[j],
                        ) ==> crate::cache_residency::eviction::leaves_before(
                            policy,
                            blocks[i],
                            blocks[j],
                        )
                };
            later_blocks_are_counted(
                blocks,
                tier,
                blocks[chosen].id.global_layer,
                blocks[chosen].id.start,
            );
            chosen
        },
    }
}

/// The newest block of a layer never leaves the device, as long as one is protected.
pub proof fn the_newest_block_stays(
    manager: CacheResidencyManager,
    required: Option<CacheBlockId>,
    recent_per_layer: usize,
    newest: int,
    choice: Option<CacheBlockId>,
)
    requires
        crate::cache_residency::catalog::blocks_ordered(manager.blocks@),
        recent_per_layer > 0,
        0 <= newest < manager.blocks@.len(),
        forall|i: int|
            0 <= i < manager.blocks@.len() && (#[trigger] manager.blocks@[i]).id.global_layer
                == manager.blocks@[newest].id.global_layer ==> manager.blocks@[i].id.start
                <= manager.blocks@[newest].id.start,
        manager.eviction_choice(CacheTier::Device, required, recent_per_layer, choice),
    ensures
        choice != Some(manager.blocks@[newest].id),
{
    broadcast use vstd::seq_lib::group_filter_ensures;

    let blocks = manager.blocks@;
    let record = blocks[newest];
    let chosen = the_least_used_block_leaves(
        manager,
        CacheTier::Device,
        required,
        recent_per_layer,
        choice,
        newest,
    );
    if choice == Some(record.id) {
        crate::cache_residency::catalog::block_position_is_unique(blocks, chosen, newest);
        let pred = |other: CacheBlockRecord|
            other.tier == CacheTier::Device && other.id.global_layer == record.id.global_layer
                && other.id.start > record.id.start;
        let later = blocks.filter(pred);
        assert(later.len() > 0);
        assert(pred(later[0]));
        assert(later.contains(later[0]));
        blocks.lemma_filter_contains_rev(pred, later[0]);
        let i = choose|i: int| 0 <= i < blocks.len() && blocks[i] == later[0];
        assert(blocks[i].id.start <= record.id.start);
    }
}

/// Blocks of one layer and representation are cataloged in token order.
pub proof fn catalog_order_is_token_order(left: CacheBlockId, right: CacheBlockId)
    requires
        left.session_id == right.session_id,
        left.global_layer == right.global_layer,
        left.representation == right.representation,
    ensures
        left.start < right.start ==> crate::cache_residency::block::id_before(left, right),
        crate::cache_residency::block::id_before(left, right) ==> left.start <= right.start,
{
}

/// Catalog order goes by session, then by layer.
pub proof fn catalog_order_goes_by_session_and_layer(left: CacheBlockId, right: CacheBlockId)
    ensures
        left.session_id < right.session_id ==> crate::cache_residency::block::id_before(
            left,
            right,
        ),
        left.session_id == right.session_id && left.global_layer < right.global_layer
            ==> crate::cache_residency::block::id_before(left, right),
{
}

/// Arrays are taken in as the block of so many tokens exactly where both have one element
/// type and hold that many tokens along their sequence axis: keys and values of one shape,
/// the axis before the last; latent and rotary states of rank 3 and one batch, the axis
/// behind the batch.
pub proof fn accepted_arrays_hold_the_tokens(arrays: CacheBlockArrays, tokens: int)
    ensures
        crate::cache_residency::block::block_arrays_failure(arrays, tokens) is None <==> match arrays {
            CacheBlockArrays::KeyValue { keys, values } => {
                &&& keys.dtype@ == values.dtype@
                &&& keys.shape@ == values.shape@
                &&& keys.shape@.len() >= 2
                &&& keys.shape@[keys.shape@.len() - 2] == tokens
            },
            CacheBlockArrays::CompressedLatentRotary { latent, rotary_key } => {
                &&& latent.dtype@ == rotary_key.dtype@
                &&& latent.shape@.len() == 3
                &&& rotary_key.shape@.len() == 3
                &&& latent.shape@[0] == rotary_key.shape@[0]
                &&& latent.shape@[1] == tokens
                &&& rotary_key.shape@[1] == tokens
            },
        },
{
}

/// The bytes of a block are those of both of its arrays.
pub proof fn blocks_weigh_as_their_arrays(arrays: CacheBlockArrays)
    ensures
        arrays.size() == match arrays {
            CacheBlockArrays::KeyValue { keys, values } => keys.nbytes + values.nbytes,
            CacheBlockArrays::CompressedLatentRotary { latent, rotary_key } => latent.nbytes
                + rotary_key.nbytes,
        },
        arrays.stored() == match arrays {
            CacheBlockArrays::KeyValue { .. } => CacheRepresentation::KeyValue,
            CacheBlockArrays::CompressedLatentRotary { .. } =>
                CacheRepresentation::CompressedLatentRotary,
        },
{
}

/// A block is sealed exactly where its range holds tokens from zero on, its arrays hold as
/// many, and its identity is not cataloged yet.
pub proof fn sealed_blocks_are_new(
    manager: CacheResidencyManager,
    id: CacheBlockId,
    arrays: CacheBlockArrays,
)
    ensures
        crate::cache_residency::append::seal_failure(manager, id, arrays) is None <==> {
            &&& 0 <= id.start < id.end
            &&& crate::cache_residency::block::block_arrays_failure(arrays, id.end - id.start)
                is None
            &&& forall|i: int|
                0 <= i < manager.blocks@.len() ==> (#[trigger] manager.blocks@[i]).id != id
        },
{
}

/// A freshly sealed block is on the device with the arrays that it was sealed with, is not
/// leased, and was used last.
pub proof fn sealed_blocks_are_resident(
    record: CacheBlockRecord,
    id: CacheBlockId,
    arrays: CacheBlockArrays,
    clock: u64,
    protected_prefix: bool,
)
    requires
        crate::cache_residency::append::freshly_sealed(
            record,
            id,
            arrays,
            clock,
            protected_prefix,
        ),
    ensures
        record.id == id,
        record.tier == CacheTier::Device,
        record.arrays == Some(arrays),
        record.disk is None,
        record.pending_disk is None,
        record.bytes == arrays.size(),
        record.leases == 0,
        record.access_count == 0,
        record.last_access == clock,
        record.protected_prefix == protected_prefix,
        !record.imported,
        crate::cache_residency::lease::matches_record(arrays, record),
{
}

/// A lease counts one holder and one access, now; giving it back takes the holder away and
/// nothing else. What the block holds and where it is stays as it was.
pub proof fn leases_count_holders(record: CacheBlockRecord, clock: u64)
    requires
        record.leases < usize::MAX,
        record.access_count < u64::MAX,
    ensures
        ({
            let leased = crate::cache_residency::lease::accessed(record, clock);
            let back = crate::cache_residency::lease::unleased(leased);
            &&& leased.leases == record.leases + 1
            &&& leased.access_count == record.access_count + 1
            &&& leased.last_access == clock
            &&& leased.tier == record.tier && leased.arrays == record.arrays && leased.disk
                == record.disk && leased.id == record.id && leased.bytes == record.bytes
            &&& leased.pending_disk == record.pending_disk && leased.protected_prefix
                == record.protected_prefix && leased.imported == record.imported
            &&& back.leases == record.leases
            &&& back == (CacheBlockRecord { leases: record.leases, ..leased })
        }),
        record.leases == 0 ==> crate::cache_residency::lease::unleased(record) == record,
{
}

/// Every demand access is counted once: as a hit that moves nothing, or as a miss that
/// promotes the bytes of its block from the host or from disk.
pub proof fn accesses_are_counted_once(from_disk: bool, bytes: u64, waited: u128)
    ensures
        ({
            let hit = crate::cache_residency::lease::hit_activity(waited);
            let miss = crate::cache_residency::lease::miss_activity(from_disk, bytes, waited);
            &&& hit.demand_hits == 1 && hit.demand_misses == 0
            &&& hit.host_promotions == 0 && hit.disk_promotions == 0 && hit.transfer_bytes == 0
            &&& miss.demand_hits == 0 && miss.demand_misses == 1
            &&& miss.host_promotions + miss.disk_promotions == 1
            &&& from_disk <==> miss.disk_promotions == 1
            &&& miss.transfer_bytes == bytes
            &&& hit.transfer_wait == waited && miss.transfer_wait == waited
            &&& hit.failures == 0 && miss.failures == 0
        }),
{
}

/// What a read brings is taken in only in the generation that asked for it, for a block
/// that is still cataloged, and with the shapes and element types that were cataloged.
pub proof fn only_matching_reads_are_taken_in(
    manager: CacheResidencyManager,
    id: CacheBlockId,
    ticket: DiskTicket,
    reply: DiskReply,
)
    ensures
        manager.read_settlement(id, ticket, reply) == ReadSettlement::Loaded <==> {
            &&& reply is Read
            &&& manager.generation == ticket.key.generation
            &&& manager.has_block(id)
            &&& reply->Read_0.first_array().shape@ == manager.block(id).first_shape@
            &&& reply->Read_0.second_array().shape@ == manager.block(id).second_shape@
            &&& reply->Read_0.first_array().dtype@ == manager.block(id).first_dtype@
            &&& reply->Read_0.second_array().dtype@ == manager.block(id).second_dtype@
        },
        (reply is Read || reply is Cancelled) && manager.generation != ticket.key.generation
            ==> manager.read_settlement(id, ticket, reply) == ReadSettlement::Stale,
{
}

/// Bytes of the tails together.
pub open spec fn tail_bytes(tails: Seq<CacheTail>) -> int
    decreases tails.len(),
{
    if tails.len() == 0 {
        0
    } else {
        tail_bytes(tails.drop_last()) + tails.last().bytes
    }
}

/// Bytes of the blocks on a tier together.
pub open spec fn tier_bytes(blocks: Seq<CacheBlockRecord>, tier: CacheTier) -> int
    decreases blocks.len(),
{
    if blocks.len() == 0 {
        0
    } else {
        tier_bytes(blocks.drop_last(), tier) + if blocks.last().tier == tier {
            blocks.last().bytes as int
        } else {
            0
        }
    }
}


proof fn device_parts_add_up(left: Seq<Part>, right: Seq<Part>)
    ensures
        crate::cache_residency::budget::device_sum(left + right)
            == crate::cache_residency::budget::device_sum(left)
            + crate::cache_residency::budget::device_sum(right),
    decreases right.len(),
{
    if right.len() > 0 {
        assert((left + right).drop_last() =~= left + right.drop_last());
        device_parts_add_up(left, right.drop_last());
    } else {
        assert(left + right =~= left);
    }
}

proof fn tails_weigh_on_the_device(tails: Seq<CacheTail>)
    ensures
        crate::cache_residency::budget::device_sum(
            tails.map_values(|tail: CacheTail| crate::cache_residency::report::tail_part(tail)),
        ) == tail_bytes(tails),
    decreases tails.len(),
{
    if tails.len() > 0 {
        let parts = tails.map_values(
            |tail: CacheTail| crate::cache_residency::report::tail_part(tail),
        );
        assert(parts.drop_last() =~= tails.drop_last().map_values(
            |tail: CacheTail| crate::cache_residency::report::tail_part(tail),
        ));
        tails_weigh_on_the_device(tails.drop_last());
    }
}

proof fn blocks_weigh_on_their_tier(manager: CacheResidencyManager, count: int)
    requires
        0 <= count <= manager.blocks@.len(),
    ensures
        crate::cache_residency::budget::device_sum(
            manager.blocks@.take(count).map_values(
                |record: CacheBlockRecord|
                    crate::cache_residency::report::record_part(
                        manager.host_write_reservations@,
                        record,
                    ),
            ),
        ) == tier_bytes(manager.blocks@.take(count), CacheTier::Device),
    decreases count,
{
    let blocks = manager.blocks@.take(count);
    if count > 0 {
        let parts = blocks.map_values(
            |record: CacheBlockRecord|
                crate::cache_residency::report::record_part(
                    manager.host_write_reservations@,
                    record,
                ),
        );
        let shorter = manager.blocks@.take(count - 1);
        assert(blocks.drop_last() =~= shorter);
        assert(parts.drop_last() =~= shorter.map_values(
            |record: CacheBlockRecord|
                crate::cache_residency::report::record_part(
                    manager.host_write_reservations@,
                    record,
                ),
        ));
        blocks_weigh_on_their_tier(manager, count - 1);
    }
}

proof fn reservations_weigh_nothing_on_the_device(manager: CacheResidencyManager, count: int)
    requires
        0 <= count <= manager.host_write_reservations@.len(),
    ensures
        crate::cache_residency::budget::device_sum(
            manager.host_write_reservations@.take(count).map_values(
                |reservation: crate::cache_residency::catalog::HostWriteReservation|
                    crate::cache_residency::report::reservation_part(manager.blocks@, reservation),
            ),
        ) == 0,
    decreases count,
{
    let all = manager.host_write_reservations@.take(count);
    if count > 0 {
        let parts = all.map_values(
            |reservation: crate::cache_residency::catalog::HostWriteReservation|
                crate::cache_residency::report::reservation_part(manager.blocks@, reservation),
        );
        let shorter = manager.host_write_reservations@.take(count - 1);
        assert(parts.drop_last() =~= shorter.map_values(
            |reservation: crate::cache_residency::catalog::HostWriteReservation|
                crate::cache_residency::report::reservation_part(manager.blocks@, reservation),
        ));
        reservations_weigh_nothing_on_the_device(manager, count - 1);
    }
}

proof fn tallied_device_bytes(parts: Seq<Part>)
    ensures
        crate::cache_residency::report::tally(parts, None).holdings.current_device_bytes
            == crate::cache_residency::budget::device_sum(parts),
    decreases parts.len(),
{
    if parts.len() > 0 {
        tallied_device_bytes(parts.drop_last());
    }
}

/// The device holds the mutable tails and the blocks that are on it, and nothing else: that
/// is what the device budget is held against.
pub proof fn the_device_holds_tails_and_device_blocks(manager: CacheResidencyManager)
    ensures
        manager.device_bytes() == tail_bytes(manager.tails@) + tier_bytes(
            manager.blocks@,
            CacheTier::Device,
        ),
{
    let tails = manager.tails@.map_values(
        |tail: CacheTail| crate::cache_residency::report::tail_part(tail),
    );
    let blocks = manager.blocks@.map_values(
        |record: CacheBlockRecord|
            crate::cache_residency::report::record_part(manager.host_write_reservations@, record),
    );
    let writes = manager.host_write_reservations@.map_values(
        |reservation: crate::cache_residency::catalog::HostWriteReservation|
            crate::cache_residency::report::reservation_part(manager.blocks@, reservation),
    );
    device_parts_add_up(tails, blocks);
    device_parts_add_up(tails + blocks, writes);
    tails_weigh_on_the_device(manager.tails@);
    let count = manager.blocks@.len() as int;
    assert(manager.blocks@.take(count) =~= manager.blocks@);
    blocks_weigh_on_their_tier(manager, count);
    let reserved = manager.host_write_reservations@.len() as int;
    assert(manager.host_write_reservations@.take(reserved) =~= manager.host_write_reservations@);
    reservations_weigh_nothing_on_the_device(manager, reserved);
    tallied_device_bytes(manager.parts());
}

/// Rebalancing stops only within both budgets, and moves a block only for one of them: a
/// device block leaves only an overfull device, and only the one that is next to leave;
/// a host block likewise. A copy to the host still fits there, and a block is dropped only
/// where it has a copy on disk.
pub proof fn rebalancing_serves_the_budgets(
    manager: CacheResidencyManager,
    required: Option<CacheBlockId>,
)
    ensures
        ({
            let limits = manager.options@;
            let device = manager.eviction_pick(
                CacheTier::Device,
                required,
                limits.recent_device_blocks,
            );
            let host = manager.eviction_pick(CacheTier::Host, required, 0);
            match manager.rebalance_decision(required) {
                RebalanceDecision::Settled => {
                    &&& manager.device_bytes() <= limits.device_budget_bytes
                    &&& manager.host_bytes() <= limits.host_budget_bytes
                    &&& manager.background_disk_error is None
                },
                RebalanceDecision::DropToDisk(id) => {
                    &&& device == Some(id)
                    &&& manager.device_bytes() > limits.device_budget_bytes
                    &&& manager.block(id).disk is Some
                },
                RebalanceDecision::Copy(id) => {
                    &&& device == Some(id)
                    &&& manager.device_bytes() > limits.device_budget_bytes
                    &&& manager.block(id).disk is None
                    &&& manager.host_bytes() + manager.block(id).bytes
                        <= limits.host_budget_bytes || limits.host_budget_bytes == u64::MAX
                },
                RebalanceDecision::Demote(id, needed) => {
                    &&& host == Some(id)
                    &&& needed ==> manager.device_bytes() > limits.device_budget_bytes
                        || manager.host_bytes() > limits.host_budget_bytes
                    &&& !needed ==> limits.disk_budget() is Some && manager.host_bytes()
                        >= limits.host_budget_bytes
                },
                RebalanceDecision::Background(text) => manager.background_disk_error
                    matches Some(error) && error@ == text,
                _ => manager.device_bytes() > limits.device_budget_bytes || manager.host_bytes()
                    > limits.host_budget_bytes,
            }
        }),
{
}

/// A host block is written to disk only where disk backing is enabled and its bytes still
/// fit the disk budget beside what is on disk and what is being written; it is freed without
/// a write only where it has a copy there. One that is in use stays.
pub proof fn demotion_respects_the_disk_budget(manager: CacheResidencyManager, id: CacheBlockId)
    ensures
        match manager.demotion_decision(id) {
            DemotionDecision::Write => {
                &&& manager.block(id).tier == CacheTier::Host
                &&& manager.block(id).leases == 0
                &&& manager.block(id).pending_disk is None
                &&& manager.block(id).disk is None
                &&& manager.options@.disk_budget() matches Some(budget) && (
                crate::cache_residency::demotion::live_disk_bytes(manager.blocks@)
                    + crate::cache_residency::demotion::reserved_bytes(
                    manager.host_write_reservations@,
                ) + manager.block(id).bytes <= budget || budget == u64::MAX)
            },
            DemotionDecision::Free => {
                &&& manager.block(id).tier == CacheTier::Host
                &&& manager.block(id).leases == 0
                &&& manager.block(id).pending_disk is None
                &&& manager.block(id).disk is Some
            },
            DemotionDecision::Retry => !manager.has_block(id) || manager.block(id).tier
                != CacheTier::Host || manager.block(id).leases > 0 || manager.block(
                id,
            ).pending_disk is Some,
            DemotionDecision::Refuse(_) => {
                &&& manager.block(id).disk is None
                &&& manager.options@.disk_budget() matches Some(budget) ==>
                    crate::cache_residency::demotion::live_disk_bytes(manager.blocks@)
                    + crate::cache_residency::demotion::reserved_bytes(
                    manager.host_write_reservations@,
                ) + manager.block(id).bytes > budget
            },
        },
{
    live_bytes_are_natural(manager.blocks@);
    reserved_bytes_are_natural(manager.host_write_reservations@);
}

proof fn live_bytes_are_natural(blocks: Seq<CacheBlockRecord>)
    ensures
        crate::cache_residency::demotion::live_disk_bytes(blocks) >= 0,
    decreases blocks.len(),
{
    if blocks.len() > 0 {
        live_bytes_are_natural(blocks.drop_last());
    }
}

proof fn reserved_bytes_are_natural(
    reservations: Seq<crate::cache_residency::catalog::HostWriteReservation>,
)
    ensures
        crate::cache_residency::demotion::reserved_bytes(reservations) >= 0,
    decreases reservations.len(),
{
    if reservations.len() > 0 {
        reserved_bytes_are_natural(reservations.drop_last());
    }
}

/// Disk bytes are those of the blocks with a live shard: one more such block adds its bytes,
/// and blocks without one, or whose shard belongs to a prompt cache, add nothing.
pub proof fn live_disk_bytes_are_those_of_live_shards(
    blocks: Seq<CacheBlockRecord>,
    record: CacheBlockRecord,
)
    ensures
        crate::cache_residency::demotion::live_disk_bytes(blocks.push(record))
            - crate::cache_residency::demotion::live_disk_bytes(blocks) == match record.disk {
            Some(location) => if location.persistent {
                0
            } else {
                record.bytes as int
            },
            None => 0,
        },
        crate::cache_residency::demotion::live_disk_bytes(Seq::empty()) == 0,
{
    assert(blocks.push(record).drop_last() =~= blocks);
}

/// A demoted block gives its arrays up and is on disk; its copy there and everything else
/// about it stays.
pub proof fn demoted_blocks_keep_their_copy(record: CacheBlockRecord)
    ensures
        ({
            let moved = crate::cache_residency::demotion::on_disk(record);
            &&& moved.tier == CacheTier::Disk
            &&& moved.arrays is None
            &&& moved.disk == record.disk
            &&& moved == (CacheBlockRecord { tier: moved.tier, arrays: moved.arrays, ..record })
        }),
{
}

/// Limits are accepted exactly where they are finite and meaningful.
pub proof fn accepted_limits_are_meaningful(
    block_size_tokens: i32,
    device_budget_bytes: u64,
    recent_device_blocks: usize,
    directory: Seq<char>,
    disk_budget_bytes: u64,
    queue_capacity: usize,
)
    ensures
        crate::cache_residency::options::paged_limits_failure(
            block_size_tokens,
            device_budget_bytes,
            recent_device_blocks,
        ) is None <==> block_size_tokens > 0 && device_budget_bytes > 0 && recent_device_blocks
            > 0,
        crate::cache_residency::options::live_disk_failure(
            directory,
            disk_budget_bytes,
            queue_capacity,
        ) is None <==> directory.len() > 0 && disk_budget_bytes > 0 && queue_capacity > 0,
{
}

/// Rebalancing moves what it can: over the device budget the block that leaves falls back
/// to its disk copy, or else is copied where the host has room, or else makes a host
/// block leave first; over the host budget a host block leaves; and a host that is just
/// full starts one write ahead where there is a disk.
pub proof fn rebalancing_moves_what_it_can(
    manager: CacheResidencyManager,
    required: Option<CacheBlockId>,
    id: CacheBlockId,
    other: CacheBlockId,
)
    requires
        manager.background_disk_error is None,
    ensures
        ({
            let limits = manager.options@;
            let decision = manager.rebalance_decision(required);
            let leaves = manager.eviction_pick(
                CacheTier::Device,
                required,
                limits.recent_device_blocks,
            ) == Some(id);
            let host_leaves = manager.eviction_pick(CacheTier::Host, required, 0) == Some(other);
            let over_device = manager.device_bytes() > limits.device_budget_bytes;
            let over_host = manager.host_bytes() > limits.host_budget_bytes;
            let fits = manager.host_bytes() + manager.block(id).bytes <= limits.host_budget_bytes;
            &&& over_device && leaves && manager.block(id).disk is Some ==> decision
                == RebalanceDecision::DropToDisk(id)
            &&& over_device && leaves && manager.block(id).disk is None && fits ==> decision
                == RebalanceDecision::Copy(id)
            &&& over_device && leaves && manager.block(id).disk is None && !fits && manager.block(
                id,
            ).bytes <= limits.host_budget_bytes < u64::MAX && host_leaves ==> decision
                == RebalanceDecision::Demote(other, true)
            &&& !over_device && over_host && host_leaves ==> decision == RebalanceDecision::Demote(
                other,
                true,
            )
            &&& !over_device && !over_host && manager.host_bytes() == limits.host_budget_bytes
                && manager.host_bytes() > 0 && limits.disk_budget() is Some && host_leaves
                ==> decision == RebalanceDecision::Demote(other, false)
            &&& !over_device && manager.host_bytes() < limits.host_budget_bytes ==> decision
                is Settled
            &&& !over_device && !over_host && limits.disk_budget() is None ==> decision is Settled
            &&& decision is Refuse ==> over_device || over_host
        }),
{
    crate::cache_residency::report::parts_are_modest(manager);
    host_bytes_are_natural(manager.parts());
}

proof fn host_bytes_are_natural(parts: Seq<Part>)
    requires
        forall|i: int|
            0 <= i < parts.len() ==> crate::cache_residency::report::modest(#[trigger] parts[i]),
    ensures
        crate::cache_residency::report::tally(parts, None).holdings.current_host_bytes >= 0,
    decreases parts.len(),
{
    if parts.len() > 0 {
        let rest = parts.drop_last();
        assert forall|i: int| 0 <= i < rest.len() implies crate::cache_residency::report::modest(
            #[trigger] rest[i],
        ) by {
            assert(rest[i] == parts[i]);
        }
        host_bytes_are_natural(rest);
        assert(crate::cache_residency::report::modest(parts[parts.len() - 1]));
    }
}

/// A write in flight is waited for before anything is refused for want of host room.
pub proof fn writes_in_flight_are_awaited_first(
    manager: CacheResidencyManager,
    refusal: CacheFailure,
    layer: Option<usize>,
)
    ensures
        manager.host_write_reservations@.len() > 0 ==> manager.host_fallback(refusal, layer)
            == RebalanceDecision::Await(manager.host_write_reservations@[0].ticket),
        manager.host_fallback(refusal, layer) is Refuse ==> manager.host_write_reservations@.len()
            == 0 && forall|i: int|
            0 <= i < manager.blocks@.len() ==> !(#[trigger] manager.blocks@[i]).writing(),
{
    if manager.host_write_reservations@.len() == 0 {
        writing_blocks_are_found(manager.blocks@);
    }
}

proof fn writing_blocks_are_found(blocks: Seq<CacheBlockRecord>)
    ensures
        crate::cache_residency::demotion::first_writing(blocks) is None <==> forall|i: int|
            0 <= i < blocks.len() ==> !(#[trigger] blocks[i]).writing(),
    decreases blocks.len(),
{
    if blocks.len() > 0 {
        let rest = blocks.drop_first();
        writing_blocks_are_found(rest);
        if crate::cache_residency::demotion::first_writing(blocks) is None {
            assert forall|i: int| 0 <= i < blocks.len() implies !(#[trigger] blocks[i]).writing() by {
                if i > 0 {
                    assert(rest[i - 1] == blocks[i]);
                }
            }
        } else if !blocks[0].writing() {
            let i = choose|i: int| 0 <= i < rest.len() && (#[trigger] rest[i]).writing();
            assert(blocks[i + 1].writing());
        }
    }
}

/// A demotion is counted on its own tier and moves bytes only where arrays move; a
/// committed write moves its bytes to disk, and demotes its block only where it leaves
/// the host.
pub proof fn demotions_are_counted_once(bytes: u64, moves: bool)
    ensures
        ({
            let disk = crate::cache_residency::demotion::disk_demotion_activity();
            let host = crate::cache_residency::demotion::host_demotion_activity(bytes);
            let commit = crate::cache_residency::rebalance::commit_activity(bytes, moves);
            let failure = crate::cache_residency::lease::failure_activity();
            &&& disk.disk_demotions == 1 && disk.host_demotions == 0 && disk.transfer_bytes == 0
            &&& host.host_demotions == 1 && host.disk_demotions == 0 && host.transfer_bytes == bytes
            &&& commit.transfer_bytes == bytes && commit.host_demotions == 0
            &&& moves <==> commit.disk_demotions == 1
            &&& !moves ==> commit.disk_demotions == 0
            &&& failure.failures == 1 && failure.demand_misses == 0 && failure.transfer_bytes == 0
            &&& disk.failures == 0 && host.failures == 0 && commit.failures == 0
        }),
{
}

/// Handing a write to the worker counts a wait for an operation in flight exactly where
/// it joined one, and time exactly where the queue was full.
pub proof fn submissions_count_their_waits(outcome: DiskSubmissionOutcome, enqueue_wait: u128)
    ensures
        ({
            let activity = crate::cache_residency::demotion::submission_activity(
                outcome,
                enqueue_wait,
            );
            &&& outcome.joined <==> activity.in_flight_waits == 1
            &&& !outcome.joined ==> activity.in_flight_waits == 0
            &&& outcome.backpressure ==> activity.transfer_wait == enqueue_wait
            &&& !outcome.backpressure ==> activity.transfer_wait == 0
            &&& activity.transfer_bytes == 0
        }),
{
}

/// Reserved bytes add up reservation by reservation.
pub proof fn reserved_bytes_add_up(
    reservations: Seq<HostWriteReservation>,
    reservation: HostWriteReservation,
)
    ensures
        crate::cache_residency::demotion::reserved_bytes(Seq::empty()) == 0,
        crate::cache_residency::demotion::reserved_bytes(reservations.push(reservation))
            == crate::cache_residency::demotion::reserved_bytes(reservations) + reservation.bytes,
{
    assert(reservations.push(reservation).drop_last() =~= reservations);
}

/// Releasing the reservation of one write leaves those of all others.
pub proof fn other_reservations_stay(
    reservations: Seq<HostWriteReservation>,
    key: DiskOperationKey,
    i: int,
)
    requires
        forall|a: int, b: int|
            0 <= a < b < reservations.len() ==> (#[trigger] reservations[a]).ticket.key != (
            #[trigger] reservations[b]).ticket.key,
        0 <= i < reservations.len(),
    ensures
        ({
            let rest = crate::cache_residency::demotion::without_reservation(reservations, key);
            &&& reservations[i].ticket.key != key ==> rest.contains(reservations[i])
            &&& reservations[i].ticket.key == key ==> rest.len() == reservations.len() - 1
            &&& !crate::cache_residency::report::reserved(rest, key)
        }),
{
    let rest = crate::cache_residency::demotion::without_reservation(reservations, key);
    if crate::cache_residency::report::reserved(reservations, key) {
        let at = crate::cache_residency::demotion::reservation_index(reservations, key);
        assert(0 <= at < reservations.len() && reservations[at].ticket.key == key);
        assert(rest == reservations.remove(at));
        if reservations[i].ticket.key != key {
            if i < at {
                assert(rest[i] == reservations[i]);
            } else {
                assert(rest[i - 1] == reservations[i]);
            }
        }
        assert forall|j: int| 0 <= j < rest.len() implies (#[trigger] rest[j]).ticket.key != key by {
            if j < at {
                assert(rest[j] == reservations[j]);
            } else {
                assert(rest[j] == reservations[j + 1]);
            }
        }
    } else {
        assert(rest[i] == reservations[i]);
    }
}

} // verus!
