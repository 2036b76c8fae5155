//! What rebalancing does to the bytes on the device and on the host.

use vstd::prelude::*;

use crate::cache_residency::block::{CacheBlockArrays, CacheBlockId, CacheTier};
use crate::cache_residency::catalog::{
    CacheBlockRecord, CacheResidencyManager, HostWriteReservation,
};
use crate::cache_residency::demotion::{DemotionDecision, HostDemotionProgress, RebalanceDecision};
use crate::cache_residency::error::CacheResidencyError;
use crate::cache_residency::report::Part;

verus! {

/// Host bytes of parts, added up.
pub open spec fn host_sum(parts: Seq<Part>) -> int
    decreases parts.len(),
{
    if parts.len() == 0 {
        0
    } else {
        host_sum(parts.drop_last()) + parts.last().holdings.current_host_bytes
    }
}

/// Device bytes of parts, added up.
pub open spec fn device_sum(parts: Seq<Part>) -> int
    decreases parts.len(),
{
    if parts.len() == 0 {
        0
    } else {
        device_sum(parts.drop_last()) + parts.last().holdings.current_device_bytes
    }
}

proof fn sums_are_tallied(parts: Seq<Part>)
    ensures
        crate::cache_residency::report::tally(parts, None).holdings.current_host_bytes == host_sum(
            parts,
        ),
        crate::cache_residency::report::tally(parts, None).holdings.current_device_bytes
            == device_sum(parts),
    decreases parts.len(),
{
    if parts.len() > 0 {
        sums_are_tallied(parts.drop_last());
    }
}

proof fn sums_of_both(left: Seq<Part>, right: Seq<Part>)
    ensures
        host_sum(left + right) == host_sum(left) + host_sum(right),
        device_sum(left + right) == device_sum(left) + device_sum(right),
    decreases right.len(),
{
    if right.len() == 0 {
        assert(left + right =~= left);
    } else {
        sums_of_both(left, right.drop_last());
        assert((left + right).drop_last() =~= left + right.drop_last());
    }
}

/// Where one part changes and every other one keeps its device bytes and holds no more
/// host bytes, the sums change by no more than that part does.
proof fn one_part_changes(before: Seq<Part>, after: Seq<Part>, at: int)
    requires
        before.len() == after.len(),
        0 <= at < before.len(),
        forall|i: int|
            0 <= i < before.len() && i != at ==> (#[trigger] after[i]).holdings.current_host_bytes
                <= before[i].holdings.current_host_bytes && after[i].holdings.current_device_bytes
                == before[i].holdings.current_device_bytes,
    ensures
        host_sum(after) - host_sum(before) <= after[at].holdings.current_host_bytes
            - before[at].holdings.current_host_bytes,
        device_sum(after) - device_sum(before) == after[at].holdings.current_device_bytes
            - before[at].holdings.current_device_bytes,
    decreases before.len(),
{
    let last = before.len() - 1;
    if at == last {
        no_part_grows(before.drop_last(), after.drop_last());
    } else {
        assert(after[last].holdings.current_host_bytes <= before[last].holdings.current_host_bytes);
        one_part_changes(before.drop_last(), after.drop_last(), at);
    }
}

proof fn no_part_grows(before: Seq<Part>, after: Seq<Part>)
    requires
        before.len() == after.len(),
        forall|i: int|
            0 <= i < before.len() ==> (#[trigger] after[i]).holdings.current_host_bytes
                <= before[i].holdings.current_host_bytes && after[i].holdings.current_device_bytes
                == before[i].holdings.current_device_bytes,
    ensures
        host_sum(after) <= host_sum(before),
        device_sum(after) == device_sum(before),
    decreases before.len(),
{
    if before.len() > 0 {
        let last = before.len() - 1;
        assert(after[last].holdings.current_host_bytes <= before[last].holdings.current_host_bytes);
        no_part_grows(before.drop_last(), after.drop_last());
    }
}

/// The parts of sealed blocks.
spec fn block_parts(
    blocks: Seq<CacheBlockRecord>,
    reservations: Seq<HostWriteReservation>,
) -> Seq<Part> {
    blocks.map_values(
        |record: CacheBlockRecord|
            crate::cache_residency::report::record_part(reservations, record),
    )
}

/// The parts of write reservations.
spec fn reservation_parts(
    blocks: Seq<CacheBlockRecord>,
    reservations: Seq<HostWriteReservation>,
) -> Seq<Part> {
    reservations.map_values(
        |reservation: HostWriteReservation|
            crate::cache_residency::report::reservation_part(blocks, reservation),
    )
}

proof fn manager_sums(manager: CacheResidencyManager)
    ensures
        manager.host_bytes() == host_sum(tail_parts(manager)) + host_sum(
            block_parts(manager.blocks@, manager.host_write_reservations@),
        ) + host_sum(reservation_parts(manager.blocks@, manager.host_write_reservations@)),
        manager.device_bytes() == device_sum(tail_parts(manager)) + device_sum(
            block_parts(manager.blocks@, manager.host_write_reservations@),
        ) + device_sum(reservation_parts(manager.blocks@, manager.host_write_reservations@)),
{
    let tails = tail_parts(manager);
    let blocks = block_parts(manager.blocks@, manager.host_write_reservations@);
    let reservations = reservation_parts(manager.blocks@, manager.host_write_reservations@);
    assert(manager.parts() =~= tails + blocks + reservations);
    sums_of_both(tails, blocks);
    sums_of_both(tails + blocks, reservations);
    sums_are_tallied(manager.parts());
}

/// The parts of mutable tails.
spec fn tail_parts(manager: CacheResidencyManager) -> Seq<Part> {
    manager.tails@.map_values(
        |tail: crate::cache_residency::catalog::CacheTail|
            crate::cache_residency::report::tail_part(tail),
    )
}

/// A block without a pending write that changes its tier changes only its own bytes, and
/// no reservation comes to hold more.
proof fn retiering(before: CacheResidencyManager, after: CacheResidencyManager, index: int)
    requires
        0 <= index < before.blocks@.len(),
        before.blocks@[index].pending_disk is None,
        after.blocks@ == before.blocks@.update(index, after.blocks@[index]),
        after.blocks@[index] == (CacheBlockRecord {
            tier: after.blocks@[index].tier,
            arrays: after.blocks@[index].arrays,
            ..before.blocks@[index]
        }),
        after.tails == before.tails,
        after.host_write_reservations == before.host_write_reservations,
    ensures
        after.host_bytes() - before.host_bytes() <= on(after.blocks@[index], CacheTier::Host) - on(
            before.blocks@[index],
            CacheTier::Host,
        ),
        after.device_bytes() - before.device_bytes() == on(
            after.blocks@[index],
            CacheTier::Device,
        ) - on(before.blocks@[index], CacheTier::Device),
{
    manager_sums(before);
    manager_sums(after);
    let reservations = before.host_write_reservations@;
    let old_blocks = block_parts(before.blocks@, reservations);
    let new_blocks = block_parts(after.blocks@, reservations);
    assert forall|i: int| 0 <= i < old_blocks.len() && i != index implies (
    #[trigger] new_blocks[i]).holdings.current_host_bytes
        <= old_blocks[i].holdings.current_host_bytes && new_blocks[i].holdings.current_device_bytes
        == old_blocks[i].holdings.current_device_bytes by {
        assert(after.blocks@[i] == before.blocks@[i]);
    }
    one_part_changes(old_blocks, new_blocks, index);
    let old_reserved = reservation_parts(before.blocks@, reservations);
    let new_reserved = reservation_parts(after.blocks@, reservations);
    assert forall|i: int| 0 <= i < old_reserved.len() implies (
    #[trigger] new_reserved[i]).holdings.current_host_bytes
        <= old_reserved[i].holdings.current_host_bytes
        && new_reserved[i].holdings.current_device_bytes
        == old_reserved[i].holdings.current_device_bytes by {
        coverage_survives(before.blocks@, after.blocks@, index, reservations[i]);
    }
    no_part_grows(old_reserved, new_reserved);
}

/// Bytes of a block that is on a tier.
pub open spec fn on(record: CacheBlockRecord, tier: CacheTier) -> int {
    if record.tier == tier {
        record.bytes as int
    } else {
        0
    }
}

/// Changing a block that covered nothing uncovers nothing.
proof fn coverage_survives(
    before: Seq<CacheBlockRecord>,
    after: Seq<CacheBlockRecord>,
    index: int,
    reservation: HostWriteReservation,
)
    requires
        0 <= index < before.len(),
        before[index].pending_disk is None,
        after == before.update(index, after[index]),
    ensures
        crate::cache_residency::report::covered_by_host_record(before, reservation)
            ==> crate::cache_residency::report::covered_by_host_record(after, reservation),
{
    if crate::cache_residency::report::covered_by_host_record(before, reservation) {
        let i = choose|i: int|
            0 <= i < before.len() && (#[trigger] before[i]).id == reservation.ticket.key.id
                && before[i].tier == CacheTier::Host && (before[i].pending_disk matches Some(ticket)
                && ticket.key == reservation.ticket.key);
        assert(i != index);
        assert(after[i] == before[i]);
    }
}

/// A block that rebalancing copies to the host fits there: the copy takes its bytes off
/// the device and leaves the host within its budget.
pub proof fn copies_to_host_fit(
    before: CacheResidencyManager,
    after: CacheResidencyManager,
    required: Option<CacheBlockId>,
    id: CacheBlockId,
    arrays: CacheBlockArrays,
)
    requires
        before.wf(),
        before.fits(),
        before.rebalance_decision(required) == RebalanceDecision::Copy(id),
        after.blocks@ == before.blocks@.update(
            before.block_index(id),
            (CacheBlockRecord {
                arrays: Some(arrays),
                tier: CacheTier::Host,
                ..before.block(id)
            }),
        ),
        after.tails == before.tails,
        after.host_write_reservations == before.host_write_reservations,
    ensures
        after.host_bytes() <= before.options@.host_budget_bytes,
        after.device_bytes() == before.device_bytes() - before.block(id).bytes,
{
    crate::cache_residency::eviction::evicted_blocks_may_leave(
        before,
        CacheTier::Device,
        required,
        before.options@.recent_device_blocks,
    );
    let index = before.block_index(id);
    assert(0 <= index < before.blocks@.len() && before.blocks@[index].id == id);
    retiering(before, after, index);
    bytes_are_bounded(before, index);
}

/// In a catalog whose bytes add up, a device block and what is on the host do too.
proof fn bytes_are_bounded(manager: CacheResidencyManager, index: int)
    requires
        manager.fits(),
        0 <= index < manager.blocks@.len(),
        manager.blocks@[index].tier == CacheTier::Device,
        manager.blocks@[index].pending_disk is None,
    ensures
        manager.host_bytes() + manager.blocks@[index].bytes <= u64::MAX,
{
    let parts = manager.parts();
    let at = manager.tails@.len() + index;
    assert(parts[at as int] == crate::cache_residency::report::record_part(
        manager.host_write_reservations@,
        manager.blocks@[index],
    ));
    sums_are_tallied(parts);
    assert forall|i: int| 0 <= i < parts.len() implies 0 <= (
    #[trigger] parts[i]).holdings.current_host_bytes <= parts[i].bytes by {
        let tails = manager.tails@.len();
        let blocks = manager.blocks@.len();
        if i < tails {
            assert(parts[i] == crate::cache_residency::report::tail_part(manager.tails@[i]));
        } else if i < tails + blocks {
            assert(parts[i] == crate::cache_residency::report::record_part(
                manager.host_write_reservations@,
                manager.blocks@[i - tails],
            ));
        } else {
            assert(parts[i] == crate::cache_residency::report::reservation_part(
                manager.blocks@,
                manager.host_write_reservations@[i - tails - blocks],
            ));
        }
    }
    spare_bytes(parts, at as int);
}

proof fn spare_bytes(parts: Seq<Part>, at: int)
    requires
        0 <= at < parts.len(),
        forall|i: int|
            0 <= i < parts.len() ==> 0 <= (#[trigger] parts[i]).holdings.current_host_bytes
                <= parts[i].bytes,
    ensures
        host_sum(parts) + parts[at].bytes - parts[at].holdings.current_host_bytes
            <= crate::cache_residency::report::bytes_of(parts),
    decreases parts.len(),
{
    let rest = parts.drop_last();
    if at < rest.len() {
        spare_bytes(rest, at);
    } else {
        within_bytes(rest);
    }
    assert(parts.last() == parts[parts.len() - 1]);
}

proof fn within_bytes(parts: Seq<Part>)
    requires
        forall|i: int|
            0 <= i < parts.len() ==> 0 <= (#[trigger] parts[i]).holdings.current_host_bytes
                <= parts[i].bytes,
    ensures
        host_sum(parts) <= crate::cache_residency::report::bytes_of(parts),
    decreases parts.len(),
{
    if parts.len() > 0 {
        within_bytes(parts.drop_last());
        assert(parts.last() == parts[parts.len() - 1]);
    }
}

/// A block that falls back to its disk copy takes its bytes off the device and adds none
/// to the host.
pub proof fn dropping_to_disk_frees_the_device(
    before: CacheResidencyManager,
    after: CacheResidencyManager,
    required: Option<CacheBlockId>,
    id: CacheBlockId,
)
    requires
        before.wf(),
        before.rebalance_decision(required) == RebalanceDecision::DropToDisk(id),
        after.blocks@ == before.blocks@.update(
            before.block_index(id),
            crate::cache_residency::demotion::on_disk(before.block(id)),
        ),
        after.tails == before.tails,
        after.host_write_reservations == before.host_write_reservations,
    ensures
        after.host_bytes() <= before.host_bytes(),
        after.device_bytes() == before.device_bytes() - before.block(id).bytes,
{
    crate::cache_residency::eviction::evicted_blocks_may_leave(
        before,
        CacheTier::Device,
        required,
        before.options@.recent_device_blocks,
    );
    let index = before.block_index(id);
    assert(0 <= index < before.blocks@.len() && before.blocks@[index].id == id);
    retiering(before, after, index);
}

/// Demoting a host block never adds bytes to the host or the device, not even while its
/// write still holds the arrays; a block with a disk copy frees its bytes at once.
pub proof fn demotions_never_add_bytes(
    before: CacheResidencyManager,
    after: CacheResidencyManager,
    id: CacheBlockId,
    progress: Result<HostDemotionProgress, CacheResidencyError>,
)
    requires
        before.wf(),
        after.demoted(before, id, progress),
    ensures
        after.host_bytes() <= before.host_bytes(),
        after.device_bytes() == before.device_bytes(),
        before.demotion_decision(id) is Free ==> after.host_bytes() <= before.host_bytes()
            - before.block(id).bytes,
{
    match before.demotion_decision(id) {
        DemotionDecision::Retry => {},
        DemotionDecision::Refuse(_) => {
            assert(after.parts() == before.parts());
        },
        DemotionDecision::Free => {
            let index = before.block_index(id);
            assert(0 <= index < before.blocks@.len() && before.blocks@[index].id == id);
            retiering(before, after, index);
        },
        DemotionDecision::Write => {
            writing_adds_nothing(before, after, id, progress);
        },
    }
}

proof fn writing_adds_nothing(
    before: CacheResidencyManager,
    after: CacheResidencyManager,
    id: CacheBlockId,
    progress: Result<HostDemotionProgress, CacheResidencyError>,
)
    requires
        before.wf(),
        before.demotion_decision(id) is Write,
        after.demoted(before, id, progress),
    ensures
        after.host_bytes() <= before.host_bytes(),
        after.device_bytes() == before.device_bytes(),
{
    let index = before.block_index(id);
    assert(0 <= index < before.blocks@.len() && before.blocks@[index].id == id);
    let (ticket, send) = match progress {
        Ok(HostDemotionProgress::Pending { ticket, send }) => (ticket, send),
        _ => arbitrary(),
    };
    let key = ticket.key;
    let earlier = before.host_write_reservations@;
    let later = after.host_write_reservations@;
    manager_sums(before);
    manager_sums(after);
    let old_blocks = block_parts(before.blocks@, earlier);
    let new_blocks = block_parts(after.blocks@, later);
    assert forall|i: int| 0 <= i < old_blocks.len() implies (
    #[trigger] new_blocks[i]).holdings.current_host_bytes
        <= old_blocks[i].holdings.current_host_bytes && new_blocks[i].holdings.current_device_bytes
        == old_blocks[i].holdings.current_device_bytes by {
        let record = after.blocks@[i];
        if i != index && record.writing() {
            let written = record.pending_disk->Some_0.key;
            if crate::cache_residency::report::reserved(earlier, written) {
                reservations_stay(earlier, key, written);
                if send {
                    let kept = crate::cache_residency::demotion::without_reservation(earlier, key);
                    if written == key {
                        assert(later[later.len() - 1].ticket.key == written);
                    } else {
                        let j = choose|j: int|
                            0 <= j < kept.len() && (#[trigger] kept[j]).ticket.key == written;
                        assert(later[j] == kept[j]);
                    }
                }
                assert(crate::cache_residency::report::reserved(later, written));
            }
        }
    }
    no_part_grows(old_blocks, new_blocks);
    let kept = crate::cache_residency::demotion::without_reservation(earlier, key);
    let old_reserved = reservation_parts(before.blocks@, earlier);
    let kept_reserved = reservation_parts(before.blocks@, kept);
    let new_reserved = reservation_parts(after.blocks@, if send {
        kept
    } else {
        earlier
    });
    if send {
        if crate::cache_residency::report::reserved(earlier, key) {
            let at = crate::cache_residency::demotion::reservation_index(earlier, key);
            assert(0 <= at < earlier.len());
            assert(kept_reserved =~= old_reserved.remove(at));
            removing_a_part(old_reserved, at);
        }
        assert forall|i: int| 0 <= i < kept_reserved.len() implies (
        #[trigger] new_reserved[i]).holdings.current_host_bytes
            <= kept_reserved[i].holdings.current_host_bytes
            && new_reserved[i].holdings.current_device_bytes
            == kept_reserved[i].holdings.current_device_bytes by {
            coverage_survives(before.blocks@, after.blocks@, index, kept[i]);
        }
        no_part_grows(kept_reserved, new_reserved);
        let all = reservation_parts(after.blocks@, later);
        assert(all.drop_last() =~= new_reserved);
        assert(after.blocks@[index].id == id && after.blocks@[index].tier == CacheTier::Host);
        assert(crate::cache_residency::report::covered_by_host_record(
            after.blocks@,
            later[later.len() - 1],
        ));
    } else {
        assert forall|i: int| 0 <= i < old_reserved.len() implies (
        #[trigger] new_reserved[i]).holdings.current_host_bytes
            <= old_reserved[i].holdings.current_host_bytes
            && new_reserved[i].holdings.current_device_bytes
            == old_reserved[i].holdings.current_device_bytes by {
            coverage_survives(before.blocks@, after.blocks@, index, earlier[i]);
        }
        no_part_grows(old_reserved, new_reserved);
    }
}

/// A reservation survives the removal of another write's.
proof fn reservations_stay(
    reservations: Seq<HostWriteReservation>,
    removed: crate::cache_residency::worker::DiskOperationKey,
    key: crate::cache_residency::worker::DiskOperationKey,
)
    requires
        crate::cache_residency::report::reserved(reservations, key),
    ensures
        key != removed ==> crate::cache_residency::report::reserved(
            crate::cache_residency::demotion::without_reservation(reservations, removed),
            key,
        ),
{
    if key != removed && crate::cache_residency::report::reserved(reservations, removed) {
        let at = crate::cache_residency::demotion::reservation_index(reservations, removed);
        let i = choose|i: int|
            0 <= i < reservations.len() && (#[trigger] reservations[i]).ticket.key == key;
        let kept = reservations.remove(at);
        if i < at {
            assert(kept[i] == reservations[i]);
        } else {
            assert(kept[i - 1] == reservations[i]);
        }
    }
}

proof fn removing_a_part(parts: Seq<Part>, at: int)
    requires
        0 <= at < parts.len(),
        parts[at].holdings.current_host_bytes >= 0,
        parts[at].holdings.current_device_bytes == 0,
    ensures
        host_sum(parts.remove(at)) <= host_sum(parts),
        device_sum(parts.remove(at)) == device_sum(parts),
    decreases parts.len(),
{
    let rest = parts.drop_last();
    if at == rest.len() {
        assert(parts.remove(at) =~= rest);
    } else {
        removing_a_part(rest, at);
        assert(parts.remove(at).drop_last() =~= rest.remove(at));
        assert(parts.remove(at).last() == parts.last());
    }
}

} // verus!
