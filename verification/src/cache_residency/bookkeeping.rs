//! What the books of the residency manager amount to: which blocks are leased or pending,
//! which files are obsolete, what a generation change cancels, and what a report says.

use vstd::prelude::*;

use crate::cache_residency::block::{CacheBlockId, CacheRepresentation, CacheTier};
use crate::cache_residency::catalog::{CacheBlockRecord, CacheResidencyManager, CacheTail};
use crate::cache_residency::demotion::{HostDemotionProgress, RebalanceStep};
use crate::cache_residency::error::CacheResidencyError;
use crate::cache_residency::generation::BlockSelection;
use crate::cache_residency::report::Part;
use crate::cache_residency::stats::CacheResidencyReport;
use crate::cache_residency::worker::{
    DiskCompletion, DiskCompletionState, DiskOperationKind, DiskTicket, DiskWorker,
};

verus! {

/// The block that is reported as leased is one, and where none is reported none is leased.
pub proof fn leased_blocks_are_found(blocks: Seq<CacheBlockRecord>, index: int) -> (leased: int)
    requires
        0 <= index < blocks.len(),
    ensures
        crate::cache_residency::generation::first_leased(blocks) is None ==> blocks[index].leases
            == 0,
        crate::cache_residency::generation::first_leased(blocks) matches Some(id) ==> {
            &&& 0 <= leased < blocks.len()
            &&& blocks[leased].id == id
            &&& blocks[leased].leases > 0
            &&& index < leased ==> blocks[index].leases == 0
        },
    decreases blocks.len(),
{
    if blocks[0].leases != 0 {
        0
    } else if blocks.len() == 1 {
        0
    } else {
        let rest = blocks.drop_first();
        let at = if index == 0 {
            leased_blocks_are_found(rest, 0)
        } else {
            leased_blocks_are_found(rest, index - 1)
        };
        at + 1
    }
}

/// Every operation that a block waits for is listed, and nothing else is.
pub proof fn pending_operations_are_listed(
    blocks: Seq<CacheBlockRecord>,
    ticket: DiskTicket,
    index: int,
)
    ensures
        0 <= index < blocks.len() && blocks[index].pending_disk == Some(ticket)
            ==> crate::cache_residency::generation::pending_tickets(blocks).contains(ticket),
        crate::cache_residency::generation::pending_tickets(blocks).contains(ticket) ==> exists|
            i: int,
        | 0 <= i < blocks.len() && (#[trigger] blocks[i]).pending_disk == Some(ticket),
    decreases blocks.len(),
{
    let all = crate::cache_residency::generation::pending_tickets(blocks);
    if blocks.len() > 0 {
        let shorter = blocks.drop_last();
        let before = crate::cache_residency::generation::pending_tickets(shorter);
        pending_operations_are_listed(shorter, ticket, index);
        if before.contains(ticket) {
            let i = choose|i: int| 0 <= i < before.len() && before[i] == ticket;
            assert(all[i] == ticket);
            let j = choose|j: int|
                0 <= j < shorter.len() && (#[trigger] shorter[j]).pending_disk == Some(ticket);
            assert(blocks[j].pending_disk == Some(ticket));
        }
        if blocks.last().pending_disk == Some(ticket) {
            assert(all.last() == ticket);
            assert(blocks[blocks.len() - 1].pending_disk == Some(ticket));
        }
        if all.contains(ticket) {
            let i = choose|i: int| 0 <= i < all.len() && all[i] == ticket;
            if i < before.len() {
                assert(before[i] == ticket);
            }
        }
    }
}

/// A generation change forgets the reads of a block and keeps its writes; nothing else about
/// the block changes.
pub proof fn generation_changes_forget_reads(record: CacheBlockRecord)
    ensures
        ({
            let after = crate::cache_residency::generation::without_read(record);
            &&& (record.pending_disk is Some && record.pending_disk->Some_0.key.kind
                == DiskOperationKind::Write) ==> after == record
            &&& after.pending_disk matches Some(ticket) ==> ticket.key.kind
                == DiskOperationKind::Write
            &&& after == (CacheBlockRecord { pending_disk: after.pending_disk, ..record })
        }),
{
}

/// Generations differ from those before.
pub proof fn generations_change(generation: u64)
    ensures
        crate::cache_residency::generation::next_generation(generation) != generation,
        generation < u64::MAX ==> crate::cache_residency::generation::next_generation(generation)
            == generation + 1,
{
}

/// After a generation change no operation of that list is pending; those that had settled
/// keep their settlement, those that had not are cancelled, and other operations are as they
/// were.
pub proof fn cancellation_settles_every_operation(
    completions: Seq<DiskCompletion>,
    tickets: Seq<DiskTicket>,
    operation: int,
)
    requires
        0 <= operation < completions.len(),
    ensures
        ({
            let after = crate::cache_residency::worker::cancel_each(completions, tickets);
            let listed = exists|i: int|
                0 <= i < tickets.len() && (#[trigger] tickets[i]).operation == operation;
            &&& after.len() == completions.len()
            &&& after[operation] == if listed && completions[operation].state
                == DiskCompletionState::Pending {
                DiskCompletion { state: DiskCompletionState::Cancelled, ..completions[operation] }
            } else {
                completions[operation]
            }
        }),
    decreases tickets.len(),
{
    if tickets.len() > 0 {
        let shorter = tickets.drop_last();
        cancellation_settles_every_operation(completions, shorter, operation);
        let last = tickets.last().operation as int;
        if last < completions.len() {
            cancellation_settles_every_operation(completions, shorter, last);
        } else {
            cancellation_settles_every_operation(completions, shorter, operation);
        }
        assert(tickets[tickets.len() - 1].operation == last);
        if exists|i: int|
            0 <= i < shorter.len() && (#[trigger] shorter[i]).operation == operation {
            let i = choose|i: int|
                0 <= i < shorter.len() && (#[trigger] shorter[i]).operation == operation;
            assert(tickets[i].operation == operation);
        }
        if exists|i: int|
            0 <= i < tickets.len() && (#[trigger] tickets[i]).operation == operation {
            let i = choose|i: int|
                0 <= i < tickets.len() && (#[trigger] tickets[i]).operation == operation;
            if i < shorter.len() {
                assert(shorter[i].operation == operation);
            }
        }
    }
}

/// Obsolete files are live shards: the file of a persistent prompt cache is never among
/// them, and the live shard of a removed block always is.
pub proof fn persistent_files_are_never_obsolete(
    blocks: Seq<CacheBlockRecord>,
    path: String,
    index: int,
)
    ensures
        crate::cache_residency::generation::live_files(blocks).contains(path) ==> exists|i: int|
            0 <= i < blocks.len() && ((#[trigger] blocks[i]).disk matches Some(location)
                && location.path == path && !location.persistent),
        (0 <= index < blocks.len() && blocks[index].disk is Some
            && blocks[index].disk->Some_0.path == path && !blocks[index].disk->Some_0.persistent)
            ==> crate::cache_residency::generation::live_files(
            blocks,
        ).contains(path),
    decreases blocks.len(),
{
    let all = crate::cache_residency::generation::live_files(blocks);
    if blocks.len() > 0 {
        let shorter = blocks.drop_last();
        let before = crate::cache_residency::generation::live_files(shorter);
        persistent_files_are_never_obsolete(shorter, path, index);
        if before.contains(path) {
            let i = choose|i: int| 0 <= i < before.len() && before[i] == path;
            assert(all[i] == path);
            let j = choose|j: int|
                0 <= j < shorter.len() && ((#[trigger] shorter[j]).disk matches Some(location)
                    && location.path == path && !location.persistent);
            assert(blocks[j] == shorter[j]);
        }
        if crate::cache_residency::generation::live_file(blocks.last()) == Some(path) {
            assert(all.last() == path);
            assert(blocks[blocks.len() - 1].disk is Some);
        }
        if all.contains(path) {
            let i = choose|i: int| 0 <= i < all.len() && all[i] == path;
            if i < before.len() {
                assert(before[i] == path);
            }
        }
    }
}

/// The end of a layer is the largest end among its blocks: no block ends later, and one ends
/// there. Without blocks there is none.
pub proof fn layers_end_where_their_last_block_does(
    blocks: Seq<CacheBlockRecord>,
    layer: usize,
    representation: CacheRepresentation,
    index: int,
) -> (last: int)
    ensures
        ({
            let end = crate::cache_residency::truncate::largest_end(blocks, layer, representation);
            &&& (0 <= index < blocks.len() && blocks[index].id.global_layer == layer
                && blocks[index].id.representation == representation) ==> (end is Some
                && blocks[index].id.end <= end->Some_0)
            &&& end matches Some(end) ==> {
                &&& 0 <= last < blocks.len()
                &&& blocks[last].id.global_layer == layer
                &&& blocks[last].id.representation == representation
                &&& blocks[last].id.end == end
            }
        }),
    decreases blocks.len(),
{
    if blocks.len() == 0 {
        0
    } else {
        let shorter = blocks.drop_last();
        let before = layers_end_where_their_last_block_does(shorter, layer, representation, index);
        let rest = crate::cache_residency::truncate::largest_end(shorter, layer, representation);
        let id = blocks.last().id;
        if id.global_layer == layer && id.representation == representation && !(rest matches Some(
            end,
        ) && end >= id.end) {
            blocks.len() - 1
        } else {
            before
        }
    }
}

/// Truncation is allowed only where no block behind the boundary is in use: none is leased
/// but the crossing one, and that by the caller alone and on the device.
pub proof fn truncated_blocks_are_not_in_use(
    blocks: Seq<CacheBlockRecord>,
    selection: BlockSelection,
    crossing: Option<CacheBlockId>,
    index: int,
)
    requires
        crate::cache_residency::truncate::lease_failure(blocks, selection, crossing) is None,
        0 <= index < blocks.len(),
        selection.selects(blocks[index]),
    ensures
        crossing != Some(blocks[index].id) ==> blocks[index].leases == 0,
        crossing == Some(blocks[index].id) ==> blocks[index].leases == 1 && blocks[index].tier
            == CacheTier::Device,
    decreases blocks.len(),
{
    if index > 0 {
        truncated_blocks_are_not_in_use(blocks.drop_first(), selection, crossing, index - 1);
    }
}

/// The crossing block starts before the boundary and is among those behind it; where there
/// is none, every block behind the boundary starts there or later.
pub proof fn crossing_blocks_cross(
    blocks: Seq<CacheBlockRecord>,
    selection: BlockSelection,
    end: i64,
    index: int,
) -> (crossing: int)
    ensures
        ({
            let found = crate::cache_residency::truncate::first_crossing(blocks, selection, end);
            &&& (found is None && 0 <= index < blocks.len() && selection.selects(blocks[index]))
                ==> blocks[index].id.start >= end
            &&& found matches Some(id) ==> {
                &&& 0 <= crossing < blocks.len()
                &&& blocks[crossing].id == id
                &&& selection.selects(blocks[crossing])
                &&& id.start < end
            }
        }),
    decreases blocks.len(),
{
    if blocks.len() == 0 {
        0
    } else if selection.selects(blocks[0]) && blocks[0].id.start < end {
        0
    } else {
        crossing_blocks_cross(blocks.drop_first(), selection, end, index - 1) + 1
    }
}

/// The kept part of a crossing block has its layer, representation, rank and start, ends at
/// the boundary, and belongs to this session.
pub proof fn kept_parts_end_at_the_boundary(session_id: u64, block: CacheBlockId, end: i64)
    ensures
        ({
            let kept = crate::cache_residency::truncate::replacement_id(session_id, block, end);
            &&& kept.session_id == session_id
            &&& kept.global_layer == block.global_layer
            &&& kept.representation == block.representation
            &&& kept.rank == block.rank
            &&& kept.start == block.start
            &&& kept.end == end
        }),
{
}


proof fn tallied_tokens(parts: Seq<Part>, index: int) -> (last: int)
    requires
        forall|i: int| 0 <= i < parts.len() ==> (#[trigger] parts[i]).tokens >= 0,
    ensures
        ({
            let tokens = crate::cache_residency::report::tally(parts, None).tokens;
            &&& tokens >= 0
            &&& 0 <= index < parts.len() ==> parts[index].tokens <= tokens
            &&& tokens > 0 ==> 0 <= last < parts.len() && parts[last].tokens == tokens
        }),
    decreases parts.len(),
{
    if parts.len() == 0 {
        0
    } else {
        let shorter = parts.drop_last();
        assert forall|i: int| 0 <= i < shorter.len() implies (#[trigger] shorter[i]).tokens >= 0 by {
            assert(parts[i].tokens >= 0);
        }
        let before = tallied_tokens(shorter, index);
        assert(parts[parts.len() - 1].tokens >= 0);
        if crate::cache_residency::report::tally(shorter, None).tokens >= parts.last().tokens {
            before
        } else {
            parts.len() - 1
        }
    }
}

/// A report gives the cached tokens as the furthest end of a block or a tail: no block and
/// no tail reaches further.
pub proof fn reported_tokens_reach_the_furthest_end(
    manager: CacheResidencyManager,
    base: CacheResidencyReport,
    block: int,
    tail: int,
)
    requires
        manager.reports(base),
    ensures
        0 <= block < manager.blocks@.len() ==> manager.blocks@[block].id.end
            <= manager.report.logical_cached_tokens,
        0 <= tail < manager.tails@.len() ==> manager.tails@[tail].end
            <= manager.report.logical_cached_tokens,
{
    let parts = manager.parts();
    let tails = manager.tails@.len() as int;
    assert forall|i: int| 0 <= i < parts.len() implies (#[trigger] parts[i]).tokens >= 0 by {}
    if 0 <= block < manager.blocks@.len() {
        let _ = tallied_tokens(parts, tails + block);
        assert(parts[tails + block] == crate::cache_residency::report::record_part(
            manager.host_write_reservations@,
            manager.blocks@[block],
        ));
    }
    if 0 <= tail < tails {
        let _ = tallied_tokens(parts, tail);
        assert(parts[tail] == crate::cache_residency::report::tail_part(manager.tails@[tail]));
    }
}

/// A report gives the device bytes that the device budget is held against: those of the
/// tails and of the blocks on the device.
pub proof fn reported_device_bytes_are_those_on_the_device(
    manager: CacheResidencyManager,
    base: CacheResidencyReport,
)
    requires
        manager.reports(base),
    ensures
        manager.report.current_device_bytes == crate::cache_residency::policy::tail_bytes(
            manager.tails@,
        ) + crate::cache_residency::policy::tier_bytes(manager.blocks@, CacheTier::Device),
{
    crate::cache_residency::policy::the_device_holds_tails_and_device_blocks(manager);
}

/// Peaks never fall, and never lie below what is held now and admitted.
pub proof fn peaks_never_fall(
    manager: CacheResidencyManager,
    base: CacheResidencyReport,
)
    requires
        manager.reports(base),
    ensures
        manager.report.peak_device_bytes >= base.peak_device_bytes,
        manager.report.peak_host_bytes >= base.peak_host_bytes,
        manager.report.peak_disk_bytes >= base.peak_disk_bytes,
        manager.report.peak_in_flight_write_bytes >= base.peak_in_flight_write_bytes,
        manager.report.peak_in_flight_write_bytes >= manager.report.in_flight_write_bytes,
        manager.report.current_device_bytes <= manager.options@.device_budget_bytes
            ==> manager.report.peak_device_bytes >= manager.report.current_device_bytes,
        manager.report.current_host_bytes <= manager.options@.host_budget_bytes
            ==> manager.report.peak_host_bytes >= manager.report.current_host_bytes,
{
}

/// Every block is counted on exactly one tier and in exactly one representation, with its
/// own bytes and for its own layer.
pub proof fn blocks_are_counted_once(
    manager: CacheResidencyManager,
    record: CacheBlockRecord,
)
    ensures
        ({
            let part = crate::cache_residency::report::record_part(
                manager.host_write_reservations@,
                record,
            );
            let held = part.holdings;
            &&& held.device_blocks + held.host_blocks + held.disk_blocks == 1
            &&& held.key_value_blocks + held.compressed_latent_blocks == 1
            &&& held.device_blocks == 1 <==> record.tier == CacheTier::Device
            &&& held.host_blocks == 1 <==> record.tier == CacheTier::Host
            &&& held.key_value_blocks == 1 <==> record.id.representation
                == CacheRepresentation::KeyValue
            &&& held.current_device_bytes == if record.tier == CacheTier::Device {
                record.bytes as int
            } else {
                0
            }
            &&& record.tier == CacheTier::Host ==> held.current_host_bytes == record.bytes
            &&& held.current_disk_bytes == if record.tier == CacheTier::Disk {
                record.bytes as int
            } else {
                0
            }
            &&& held.protected_prefix_blocks == 1 <==> record.protected_prefix
            &&& part.layer == record.id.global_layer
        }),
{
}

/// A tail is counted with its bytes on the device, for its own layer.
pub proof fn tails_are_counted_on_the_device(tail: CacheTail)
    ensures
        ({
            let part = crate::cache_residency::report::tail_part(tail);
            &&& part.layer == tail.global_layer
            &&& part.holdings.current_device_bytes == tail.bytes
            &&& part.holdings.mutable_tail_bytes == tail.bytes
            &&& part.holdings.current_host_bytes == 0 && part.holdings.current_disk_bytes == 0
            &&& part.holdings.device_blocks == 0 && part.holdings.host_blocks == 0
            &&& tail.end >= 0 ==> part.tokens == tail.end
        }),
{
}

/// A full-attention scan is counted for the phase that it belongs to, and only there.
pub proof fn scans_are_counted_for_their_phase(
    prefill: bool,
    blocks: u64,
    bytes: u64,
    scratch_bytes: u64,
)
    ensures
        ({
            let scan = crate::cache_residency::rebalance::scan_activity(
                prefill,
                blocks,
                bytes,
                scratch_bytes,
            );
            &&& scan.prefill_full_attention_blocks + scan.decode_full_attention_blocks == blocks
            &&& scan.prefill_full_attention_bytes + scan.decode_full_attention_bytes == bytes
            &&& prefill ==> scan.decode_full_attention_blocks == 0
                && scan.decode_full_attention_bytes == 0
            &&& !prefill ==> scan.prefill_full_attention_blocks == 0
                && scan.prefill_full_attention_bytes == 0
            &&& scan.attention_scratch_peak_bytes == scratch_bytes
            &&& scan.demand_hits == 0 && scan.demand_misses == 0 && scan.failures == 0
        }),
{
}

/// A generation change leaves every block in its place: only reads are forgotten.
pub proof fn generation_changes_keep_blocks(manager: CacheResidencyManager, i: int)
    requires
        0 <= i < manager.blocks@.len(),
    ensures
        manager.blocks_after_cancelling().len() == manager.blocks@.len(),
        ({
            let before = manager.blocks@[i];
            let after = manager.blocks_after_cancelling()[i];
            &&& after.id == before.id
            &&& after.tier == before.tier
            &&& after.arrays == before.arrays
            &&& after.disk == before.disk
            &&& after.bytes == before.bytes
            &&& after.leases == before.leases
            &&& after.protected_prefix == before.protected_prefix
            &&& after.pending_disk is Some ==> after.pending_disk->Some_0.key.kind
                == DiskOperationKind::Write
            &&& (before.pending_disk is Some && before.pending_disk->Some_0.key.kind
                == DiskOperationKind::Write) ==> after.pending_disk == before.pending_disk
        }),
{
}

/// A block belongs behind the blocks that come before it: of an ordered catalog, exactly
/// those in front of its place come before it.
pub proof fn blocks_belong_behind_earlier_ones(
    blocks: Seq<CacheBlockRecord>,
    id: CacheBlockId,
    i: int,
)
    requires
        crate::cache_residency::catalog::blocks_ordered(blocks),
        0 <= i < blocks.len(),
    ensures
        0 <= crate::cache_residency::append::block_position(blocks, id) <= blocks.len(),
        i < crate::cache_residency::append::block_position(blocks, id)
            <==> crate::cache_residency::block::id_before(blocks[i].id, id),
    decreases blocks.len(),
{
    let rest = blocks.drop_last();
    let last = blocks[blocks.len() - 1];
    positions_are_bounded(rest, id);
    assert forall|a: int, b: int| 0 <= a < b < rest.len() implies crate::cache_residency::block::id_before(
        (#[trigger] rest[a]).id,
        (#[trigger] rest[b]).id,
    ) by {
        assert(rest[a] == blocks[a] && rest[b] == blocks[b]);
    }
    if crate::cache_residency::block::id_before(last.id, id) {
        all_come_before(rest, last.id, id);
        if i < rest.len() {
            assert(rest[i] == blocks[i]);
            assert(crate::cache_residency::block::id_before(blocks[i].id, last.id));
            crate::cache_residency::block::id_order_is_transitive(blocks[i].id, last.id, id);
        }
    } else if i < rest.len() {
        blocks_belong_behind_earlier_ones(rest, id, i);
        assert(rest[i] == blocks[i]);
    }
}

proof fn positions_are_bounded(blocks: Seq<CacheBlockRecord>, id: CacheBlockId)
    ensures
        0 <= crate::cache_residency::append::block_position(blocks, id) <= blocks.len(),
    decreases blocks.len(),
{
    if blocks.len() > 0 {
        positions_are_bounded(blocks.drop_last(), id);
    }
}

proof fn all_come_before(blocks: Seq<CacheBlockRecord>, last: CacheBlockId, id: CacheBlockId)
    requires
        crate::cache_residency::block::id_before(last, id),
        forall|a: int|
            0 <= a < blocks.len() ==> crate::cache_residency::block::id_before(
                (#[trigger] blocks[a]).id,
                last,
            ),
    ensures
        crate::cache_residency::append::block_position(blocks, id) == blocks.len(),
    decreases blocks.len(),
{
    if blocks.len() > 0 {
        let rest = blocks.drop_last();
        assert forall|a: int| 0 <= a < rest.len() implies crate::cache_residency::block::id_before(
            (#[trigger] rest[a]).id,
            last,
        ) by {
            assert(rest[a] == blocks[a]);
        }
        all_come_before(rest, last, id);
        assert(crate::cache_residency::block::id_before(blocks[blocks.len() - 1].id, last));
        crate::cache_residency::block::id_order_is_transitive(blocks.last().id, last, id);
    }
}

/// A wait for an operation in flight is counted once, with its time, and as nothing else.
pub proof fn waits_are_counted_once(waited: u128)
    ensures
        ({
            let activity = crate::cache_residency::lease::wait_activity(waited);
            &&& activity.in_flight_waits == 1
            &&& activity.transfer_wait == waited
            &&& activity.demand_hits == 0
            &&& activity.demand_misses == 0
            &&& activity.transfer_bytes == 0
            &&& activity.failures == 0
        }),
{
}

/// A retired operation is joined by no later request, and all others still are.
pub proof fn retired_operations_are_not_joined(
    worker: DiskWorker,
    before: DiskWorker,
    ticket: DiskTicket,
    other: DiskTicket,
)
    requires
        before.wf(),
        before.in_flight@.contains(ticket),
        worker.retired(before, ticket),
    ensures
        !worker.joins(ticket.key),
        other.key != ticket.key && before.in_flight@.contains(other) ==> worker.joins(other.key),
        worker.queue@ == before.queue@,
        worker.completions@ == before.completions@,
{
    let at = choose|k: int| 0 <= k < before.in_flight@.len() && before.in_flight@[k] == ticket;
    if worker.joins(ticket.key) {
        let i = choose|i: int|
            0 <= i < worker.in_flight@.len() && (#[trigger] worker.in_flight@[i]).key == ticket.key;
        let found = worker.in_flight@[i];
        assert(worker.in_flight@.contains(found));
        assert(found != ticket);
        assert(before.in_flight@.contains(found));
        let k = choose|k: int| 0 <= k < before.in_flight@.len() && before.in_flight@[k] == found;
        if k < at {
            assert(before.in_flight@[k].key != before.in_flight@[at].key);
        } else {
            assert(before.in_flight@[at].key != before.in_flight@[k].key);
        }
    }
    if other.key != ticket.key && before.in_flight@.contains(other) {
        assert(worker.in_flight@.contains(other));
        let k = choose|k: int| 0 <= k < worker.in_flight@.len() && worker.in_flight@[k] == other;
        assert(worker.in_flight@[k].key == other.key);
    }
}

/// Recent blocks are protected up to the limit: as many as a layer has, but no more than
/// the options keep.
pub proof fn recent_blocks_are_protected_up_to_the_limit(
    parts: Seq<Part>,
    recent_device_blocks: usize,
    layer: usize,
)
    ensures
        ({
            let totals = crate::cache_residency::report::current_totals(
                parts,
                recent_device_blocks,
                layer,
            );
            let candidates = crate::cache_residency::report::tally(
                parts,
                Some(layer),
            ).holdings.recent_candidates;
            &&& totals.protected_recent_blocks <= recent_device_blocks
            &&& totals.protected_recent_blocks <= candidates
            &&& totals.protected_recent_blocks == recent_device_blocks
                || totals.protected_recent_blocks == candidates
            &&& totals.logical_cached_tokens == crate::cache_residency::report::tally(
                parts,
                Some(layer),
            ).tokens
        }),
{
}

/// Parts are tallied for their own layer and for all: a part adds its holdings to its
/// layer and to the total, and nothing to another layer.
pub proof fn parts_are_tallied_for_their_layer(parts: Seq<Part>, part: Part, layer: usize)
    ensures
        ({
            let all = crate::cache_residency::report::tally(parts.push(part), None);
            let own = crate::cache_residency::report::tally(parts.push(part), Some(layer));
            let all_before = crate::cache_residency::report::tally(parts, None);
            let own_before = crate::cache_residency::report::tally(parts, Some(layer));
            &&& all.holdings == all_before.holdings.plus(part.holdings)
            &&& part.layer == layer ==> own.holdings == own_before.holdings.plus(part.holdings)
            &&& part.layer != layer ==> own == own_before
            &&& all.tokens >= part.tokens && all.tokens >= all_before.tokens
            &&& all.tokens == part.tokens || all.tokens == all_before.tokens
            &&& crate::cache_residency::report::bytes_of(parts.push(part))
                == crate::cache_residency::report::bytes_of(parts) + part.bytes
            &&& crate::cache_residency::report::tokens_of(parts.push(part))
                == crate::cache_residency::report::tokens_of(parts) + part.tokens
        }),
{
    assert(parts.push(part).drop_last() =~= parts);
}

/// Activity of a layer goes to a row while it has one or rows are left, and to the
/// overflow otherwise; either way it is in the totals.
pub proof fn activity_goes_to_its_row_or_the_overflow(
    after: CacheResidencyManager,
    before: CacheResidencyManager,
    layer: usize,
    delta: crate::cache_residency::stats::Activity,
)
    requires
        after.attributes(before, Some(layer), delta),
    ensures
        after.report.activity() == before.report.activity().plus(delta),
        (crate::cache_residency::report::is_observed(before.layer_activity@, layer)
            || before.layer_activity@.len()
            < crate::cache_residency::stats::CACHE_RESIDENCY_LAYER_REPORT_LIMIT) ==> {
            &&& crate::cache_residency::report::activity_of(after.layer_activity@, layer)
                == crate::cache_residency::report::activity_of(before.layer_activity@, layer).plus(
                delta,
            )
            &&& after.layer_activity_overflow == before.layer_activity_overflow
        },
        !crate::cache_residency::report::is_observed(before.layer_activity@, layer)
            && before.layer_activity@.len()
            >= crate::cache_residency::stats::CACHE_RESIDENCY_LAYER_REPORT_LIMIT ==> {
            &&& after.layer_activity_overflow@ == before.layer_activity_overflow@.plus(delta)
            &&& after.layer_activity@ == before.layer_activity@
        },
        after.blocks == before.blocks,
        after.tails == before.tails,
        after.generation == before.generation,
{
}

/// A demotion that is pending is written and perhaps waited for, one that was free or has
/// to be tried again goes on where it was needed, and a refused one is told.
pub proof fn demotions_are_followed_up(
    progress: Result<HostDemotionProgress, CacheResidencyError>,
    wait: bool,
    outcome: Result<RebalanceStep, CacheResidencyError>,
)
    requires
        crate::cache_residency::rebalance::step_after_demotion(progress, wait, outcome),
    ensures
        progress is Err <==> outcome is Err,
        progress matches Ok(HostDemotionProgress::Pending { ticket, send }) ==> outcome == Ok::<
            RebalanceStep,
            CacheResidencyError,
        >(RebalanceStep::Write { ticket, send, wait }),
        progress is Ok && !(progress->Ok_0 is Pending) ==> (wait <==> outcome->Ok_0 is Continue)
            && (!wait <==> outcome->Ok_0 is Done),
{
}

} // verus!
