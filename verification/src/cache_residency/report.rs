//! Derivation of the residency report from the catalog.

use vstd::prelude::*;

use crate::cache_residency::block::{CacheRepresentation, CacheTier};
use crate::cache_residency::catalog::{
    CacheBlockRecord, CacheResidencyManager, CacheTail, HostWriteReservation, LayerActivity,
};
use crate::cache_residency::stats::{
    Activity, CacheLayerResidencyReport, CacheLayerResidencyStats, CacheResidencyReport, Holdings,
    LayerTotals, CACHE_RESIDENCY_LAYER_REPORT_LIMIT,
};
use crate::cache_residency::worker::{DiskOperationKey, DiskOperationKind};

verus! {

/// What one tail, block or write reservation adds to the totals of its layer.
pub struct Part {
    /// Layer the part belongs to.
    pub layer: usize,
    /// Its blocks and bytes.
    pub holdings: Holdings,
    /// Tokens up to its end.
    pub tokens: int,
    /// Its logical bytes.
    pub bytes: int,
}

/// Holdings and longest token count of a group of parts.
pub struct Tally {
    /// Blocks and bytes of the group.
    pub holdings: Holdings,
    /// Largest token count of the group.
    pub tokens: int,
}

impl Tally {
    /// The tally of nothing.
    pub open spec fn zero() -> Tally {
        Tally { holdings: Holdings::zero(), tokens: 0 }
    }

    /// The tally with one more part.
    pub open spec fn with(self, holdings: Holdings, tokens: int) -> Tally {
        Tally {
            holdings: self.holdings.plus(holdings),
            tokens: if self.tokens >= tokens {
                self.tokens
            } else {
                tokens
            },
        }
    }
}

/// Tokens before an absolute end position.
pub open spec fn tokens_before(end: i64) -> int {
    if end > 0 {
        end as int
    } else {
        0
    }
}

/// A mutable tail holds device bytes.
pub open spec fn tail_part(tail: CacheTail) -> Part {
    Part {
        layer: tail.global_layer,
        holdings: Holdings {
            current_device_bytes: tail.bytes as int,
            mutable_tail_bytes: tail.bytes as int,
            ..Holdings::zero()
        },
        tokens: tokens_before(tail.end),
        bytes: tail.bytes as int,
    }
}

/// Whether a write has a reservation.
pub open spec fn reserved(
    reservations: Seq<HostWriteReservation>,
    key: DiskOperationKey,
) -> bool {
    exists|i: int| 0 <= i < reservations.len() && (#[trigger] reservations[i]).ticket.key == key
}

/// Whether a background write of a block is charged to the block itself.
pub open spec fn writes_unreserved(
    reservations: Seq<HostWriteReservation>,
    record: CacheBlockRecord,
) -> bool {
    record.writing() && !reserved(reservations, record.pending_disk->Some_0.key)
}

/// A sealed block is counted by representation and tier. A write without a
/// reservation keeps host bytes beyond those of a host-resident block.
pub open spec fn record_part(
    reservations: Seq<HostWriteReservation>,
    record: CacheBlockRecord,
) -> Part {
    let bytes = record.bytes as int;
    let writing = writes_unreserved(reservations, record);
    let when = |condition: bool, amount: int|
        if condition {
            amount
        } else {
            0
        };
    Part {
        layer: record.id.global_layer,
        holdings: Holdings {
            key_value_blocks: when(record.id.representation == CacheRepresentation::KeyValue, 1),
            compressed_latent_blocks: when(
                record.id.representation == CacheRepresentation::CompressedLatentRotary,
                1,
            ),
            device_blocks: when(record.tier == CacheTier::Device, 1),
            host_blocks: when(record.tier == CacheTier::Host, 1),
            disk_blocks: when(record.tier == CacheTier::Disk, 1),
            current_device_bytes: when(record.tier == CacheTier::Device, bytes),
            current_host_bytes: when(record.tier == CacheTier::Host || writing, bytes),
            current_disk_bytes: when(record.tier == CacheTier::Disk, bytes),
            mutable_tail_bytes: 0,
            in_flight_write_blocks: when(writing, 1),
            in_flight_write_bytes: when(writing, bytes),
            protected_prefix_blocks: when(record.protected_prefix, 1),
            recent_candidates: when(
                record.tier == CacheTier::Device && !record.protected_prefix,
                1,
            ),
        },
        tokens: tokens_before(record.id.end),
        bytes,
    }
}

/// Whether the reserved bytes are the arrays of a host-resident block.
pub open spec fn covered_by_host_record(
    blocks: Seq<CacheBlockRecord>,
    reservation: HostWriteReservation,
) -> bool {
    exists|i: int|
        0 <= i < blocks.len() && (#[trigger] blocks[i]).id == reservation.ticket.key.id
            && blocks[i].tier == CacheTier::Host && (blocks[i].pending_disk matches Some(ticket)
            && ticket.key == reservation.ticket.key)
}

/// A reservation holds host bytes, unless a host-resident block already does.
pub open spec fn reservation_part(
    blocks: Seq<CacheBlockRecord>,
    reservation: HostWriteReservation,
) -> Part {
    Part {
        layer: reservation.global_layer,
        holdings: Holdings {
            in_flight_write_blocks: 1,
            in_flight_write_bytes: reservation.bytes as int,
            current_host_bytes: if covered_by_host_record(blocks, reservation) {
                0
            } else {
                reservation.bytes as int
            },
            ..Holdings::zero()
        },
        tokens: 0,
        bytes: reservation.bytes as int,
    }
}

/// The tally of all parts, or of the parts of one layer.
pub open spec fn tally(parts: Seq<Part>, layer: Option<usize>) -> Tally
    decreases parts.len(),
{
    if parts.len() == 0 {
        Tally::zero()
    } else {
        let rest = tally(parts.drop_last(), layer);
        let part = parts.last();
        if layer is None || layer == Some(part.layer) {
            rest.with(part.holdings, part.tokens)
        } else {
            rest
        }
    }
}

/// Logical bytes of all parts.
pub open spec fn bytes_of(parts: Seq<Part>) -> int
    decreases parts.len(),
{
    if parts.len() == 0 {
        0
    } else {
        bytes_of(parts.drop_last()) + parts.last().bytes
    }
}

/// Token counts of all parts, added up.
pub open spec fn tokens_of(parts: Seq<Part>) -> int
    decreases parts.len(),
{
    if parts.len() == 0 {
        0
    } else {
        tokens_of(parts.drop_last()) + parts.last().tokens
    }
}

/// Whether `layers` lists the layers of `parts` in ascending order, each once.
pub open spec fn lists_layers(layers: Seq<usize>, parts: Seq<Part>) -> bool {
    &&& forall|i: int, j: int| 0 <= i < j < layers.len() ==> layers[i] < layers[j]
    &&& forall|i: int|
        0 <= i < parts.len() ==> layers.contains((#[trigger] parts[i]).layer)
    &&& forall|i: int|
        0 <= i < layers.len() ==> exists|j: int|
            0 <= j < parts.len() && (#[trigger] parts[j]).layer == #[trigger] layers[i]
}

/// The layers of `parts` in ascending order.
pub open spec fn active_layers(parts: Seq<Part>) -> Seq<usize> {
    choose|layers: Seq<usize>| lists_layers(layers, parts)
}

/// Whether a layer has its own activity row.
pub open spec fn is_observed(activity: Seq<LayerActivity>, layer: usize) -> bool {
    exists|i: int| 0 <= i < activity.len() && (#[trigger] activity[i]).global_layer == layer
}

/// The activity of a layer with its own row, and none for others.
pub open spec fn activity_of(activity: Seq<LayerActivity>, layer: usize) -> Activity {
    if is_observed(activity, layer) {
        activity[choose|i: int|
            0 <= i < activity.len() && (#[trigger] activity[i]).global_layer == layer].counters@
    } else {
        Activity::zero()
    }
}

/// Active layers without an activity row, in ascending order.
pub open spec fn fresh_layers(layers: Seq<usize>, activity: Seq<LayerActivity>) -> Seq<usize> {
    layers.filter(|layer: usize| !is_observed(activity, layer))
}

/// How many fresh layers still get a row of their own.
pub open spec fn fresh_rows(layers: Seq<usize>, activity: Seq<LayerActivity>) -> int {
    let fresh = fresh_layers(layers, activity).len() as int;
    let free = CACHE_RESIDENCY_LAYER_REPORT_LIMIT - activity.len();
    if fresh <= free {
        fresh
    } else {
        free
    }
}

/// The lesser of a layer's unprotected device blocks and the protected recent count.
pub open spec fn recent_protected(tally: Tally, recent_device_blocks: usize) -> int {
    if tally.holdings.recent_candidates <= recent_device_blocks {
        tally.holdings.recent_candidates
    } else {
        recent_device_blocks as int
    }
}

/// Totals of one layer without its activity.
pub open spec fn current_totals(
    parts: Seq<Part>,
    recent_device_blocks: usize,
    layer: usize,
) -> LayerTotals {
    let tally = tally(parts, Some(layer));
    LayerTotals {
        logical_cached_tokens: tally.tokens,
        holdings: tally.holdings.reported(),
        protected_recent_blocks: recent_protected(tally, recent_device_blocks),
        activity: Activity::zero(),
    }
}

/// Current totals of a list of layers together.
pub open spec fn summed_totals(
    parts: Seq<Part>,
    recent_device_blocks: usize,
    layers: Seq<usize>,
) -> LayerTotals
    decreases layers.len(),
{
    if layers.len() == 0 {
        LayerTotals::zero()
    } else {
        summed_totals(parts, recent_device_blocks, layers.drop_last()).plus(
            current_totals(parts, recent_device_blocks, layers.last()),
        )
    }
}

/// Whether a layer has a row.
pub open spec fn has_row(rows: Seq<CacheLayerResidencyReport>, layer: usize) -> bool {
    exists|i: int| 0 <= i < rows.len() && (#[trigger] rows[i]).global_layer == layer
}

/// A peak that only rises while the current value is admitted.
pub open spec fn raised(peak: u64, current: u64, admitted: bool) -> u64 {
    if admitted && current > peak {
        current
    } else {
        peak
    }
}

impl CacheResidencyManager {
    /// Everything that the report counts: tails, sealed blocks, write reservations.
    pub open spec fn parts(self) -> Seq<Part> {
        self.tails@.map_values(|tail: CacheTail| tail_part(tail)) + self.blocks@.map_values(
            |record: CacheBlockRecord| record_part(self.host_write_reservations@, record),
        ) + self.host_write_reservations@.map_values(
            |reservation: HostWriteReservation| reservation_part(self.blocks@, reservation),
        )
    }

    /// Whether the catalog's sizes and positions add up within machine integers.
    pub open spec fn fits(self) -> bool {
        self.room_for(0, 0, 0)
    }

    /// Whether they still do with so many more parts, bytes and tokens.
    pub open spec fn room_for(self, parts: int, bytes: int, tokens: int) -> bool {
        &&& self.parts().len() + parts <= u64::MAX
        &&& bytes_of(self.parts()) + bytes <= u64::MAX
        &&& tokens_of(self.parts()) + tokens <= u64::MAX
    }

    /// Whether there is room to reserve host bytes for a write of any block.
    pub open spec fn room_for_write(self) -> bool {
        &&& self.room_for(1, 0, 0)
        &&& forall|i: int|
            0 <= i < self.blocks@.len() ==> self.room_for(1, (#[trigger] self.blocks@[i]).bytes as int, 0)
    }

    /// Whether the report's rows and overflow describe the catalog: one row per
    /// observed layer and, while rows are left, per active layer in ascending order;
    /// the remaining active layers are summed up in the overflow.
    pub open spec fn layers_reported(self) -> bool {
        let parts = self.parts();
        let layers = active_layers(parts);
        let activity = self.layer_activity@;
        let recent = self.options@.recent_device_blocks;
        let fresh = fresh_layers(layers, activity);
        let shown = fresh_rows(layers, activity);
        let rows = self.report.per_layer@;
        let hidden = fresh.skip(shown);
        &&& lists_layers(layers, parts)
        &&& rows.len() == activity.len() + shown
        &&& forall|i: int, j: int|
            0 <= i < j < rows.len() ==> (#[trigger] rows[i]).global_layer < (
            #[trigger] rows[j]).global_layer
        &&& forall|i: int|
            0 <= i < rows.len() ==> is_observed(activity, (#[trigger] rows[i]).global_layer)
                || fresh.take(shown).contains(rows[i].global_layer)
        &&& forall|i: int|
            0 <= i < activity.len() ==> has_row(rows, (#[trigger] activity[i]).global_layer)
        &&& forall|i: int| 0 <= i < shown ==> has_row(rows, #[trigger] fresh[i])
        &&& forall|i: int|
            0 <= i < rows.len() ==> (#[trigger] rows[i]).stats@ == (LayerTotals {
                activity: activity_of(activity, rows[i].global_layer),
                ..current_totals(parts, recent, rows[i].global_layer)
            })
        &&& self.report.per_layer_overflow_layers == hidden.len()
        &&& self.report.per_layer_overflow@ == (LayerTotals {
            activity: self.layer_activity_overflow@,
            ..summed_totals(parts, recent, hidden)
        })
    }

    /// Whether the report is `base` with its current totals taken from the catalog.
    pub open spec fn reports(self, base: CacheResidencyReport) -> bool {
        let parts = self.parts();
        let all = tally(parts, None);
        let recent = self.options@.recent_device_blocks;
        let report = self.report;
        &&& report.holdings() == all.holdings.reported()
        &&& report.logical_cached_tokens == all.tokens
        &&& report.protected_recent_blocks == summed_totals(
            parts,
            recent,
            active_layers(parts),
        ).protected_recent_blocks
        &&& self.layers_reported()
        &&& report.peak_device_bytes == raised(
            base.peak_device_bytes,
            report.current_device_bytes,
            report.current_device_bytes <= self.options@.device_budget_bytes,
        )
        &&& report.peak_host_bytes == raised(
            base.peak_host_bytes,
            report.current_host_bytes,
            report.current_host_bytes <= self.options@.host_budget_bytes,
        )
        &&& report.peak_disk_bytes == raised(
            base.peak_disk_bytes,
            report.current_disk_bytes,
            self.options@.disk_budget() matches Some(budget) ==> report.current_disk_bytes
                <= budget,
        )
        &&& report.peak_in_flight_write_bytes == raised(
            base.peak_in_flight_write_bytes,
            report.in_flight_write_bytes,
            true,
        )
        &&& report.keeps_counters(base)
    }
}

impl CacheResidencyReport {
    /// Whether the counters that no catalog scan derives equal those of `base`.
    pub open spec fn keeps_counters(self, base: CacheResidencyReport) -> bool {
        &&& self.activity() == base.activity()
        &&& self.evictions == base.evictions
        &&& self.discarded_sliding_blocks == base.discarded_sliding_blocks
        &&& self.block_seals == base.block_seals
        &&& self.tail_allocations == base.tail_allocations
        &&& self.queue_capacity == base.queue_capacity
        &&& self.queue_peak_occupancy == base.queue_peak_occupancy
        &&& self.queue_backpressure == base.queue_backpressure
        &&& self.cancellations == base.cancellations
        &&& self.prompt_cache_saves == base.prompt_cache_saves
        &&& self.prompt_cache_loads == base.prompt_cache_loads
        &&& self.prompt_cache_bytes == base.prompt_cache_bytes
        &&& self.imported_mapped_shards == base.imported_mapped_shards
        &&& self.process_rss_bytes == base.process_rss_bytes
        &&& self.process_minor_page_faults == base.process_minor_page_faults
        &&& self.process_major_page_faults == base.process_major_page_faults
    }
}

/// Two ascending lists of the same layers are equal.
proof fn layer_lists_agree(left: Seq<usize>, right: Seq<usize>, parts: Seq<Part>)
    requires
        lists_layers(left, parts),
        lists_layers(right, parts),
    ensures
        left == right,
{
    assert forall|layer: usize| left.contains(layer) implies right.contains(layer) by {
        let i = choose|i: int| 0 <= i < left.len() && left[i] == layer;
        let j = choose|j: int| 0 <= j < parts.len() && (#[trigger] parts[j]).layer == left[i];
        assert(right.contains(parts[j].layer));
    }
    assert forall|layer: usize| right.contains(layer) implies left.contains(layer) by {
        let i = choose|i: int| 0 <= i < right.len() && right[i] == layer;
        let j = choose|j: int| 0 <= j < parts.len() && (#[trigger] parts[j]).layer == right[i];
        assert(left.contains(parts[j].layer));
    }
    ascending_lists_agree(left, right);
}

/// Two ascending lists with the same members are equal.
proof fn ascending_lists_agree(left: Seq<usize>, right: Seq<usize>)
    requires
        forall|i: int, j: int| 0 <= i < j < left.len() ==> left[i] < left[j],
        forall|i: int, j: int| 0 <= i < j < right.len() ==> right[i] < right[j],
        forall|layer: usize| left.contains(layer) <==> right.contains(layer),
    ensures
        left == right,
    decreases left.len(),
{
    if left.len() == 0 {
        if right.len() > 0 {
            assert(right.contains(right[0]));
        }
        assert(left =~= right);
    } else {
        assert(left.contains(left.last()));
        assert(right.len() > 0);
        assert(right.contains(right.last()));
        assert(right.contains(left.last()));
        assert(left.contains(right.last()));
        let l = left.drop_last();
        let r = right.drop_last();
        assert(left.last() == right.last());
        assert forall|layer: usize| l.contains(layer) <==> r.contains(layer) by {
            if l.contains(layer) {
                let i = choose|i: int| 0 <= i < l.len() && l[i] == layer;
                assert(left[i] == layer);
                assert(left.contains(layer));
                let j = choose|j: int| 0 <= j < right.len() && right[j] == layer;
                assert(r[j] == layer);
            }
            if r.contains(layer) {
                let i = choose|i: int| 0 <= i < r.len() && r[i] == layer;
                assert(right[i] == layer);
                assert(right.contains(layer));
                let j = choose|j: int| 0 <= j < left.len() && left[j] == layer;
                assert(l[j] == layer);
            }
        }
        ascending_lists_agree(l, r);
        assert(left =~= l.push(left.last()));
        assert(right =~= r.push(right.last()));
    }
}

/// Every part holds at most one block of each kind and its own bytes.
pub open spec fn modest(part: Part) -> bool {
    part.holdings.within(1, part.bytes) && part.tokens >= 0 && part.bytes >= 0
}

/// Tallies are bounded by the number, bytes and tokens of the parts.
proof fn tally_is_bounded(parts: Seq<Part>, layer: Option<usize>)
    requires
        forall|i: int| 0 <= i < parts.len() ==> modest(#[trigger] parts[i]),
    ensures
        tally(parts, layer).holdings.within(parts.len() as int, bytes_of(parts)),
        0 <= tally(parts, layer).tokens <= tokens_of(parts),
        bytes_of(parts) >= 0,
        tokens_of(parts) >= 0,
    decreases parts.len(),
{
    if parts.len() > 0 {
        let rest = parts.drop_last();
        assert forall|i: int| 0 <= i < rest.len() implies modest(#[trigger] rest[i]) by {
            assert(rest[i] == parts[i]);
        }
        tally_is_bounded(rest, layer);
        assert(modest(parts[parts.len() - 1]));
    }
}

/// A prefix of the parts has no more bytes or tokens than all of them.
pub(crate) proof fn prefix_is_smaller(parts: Seq<Part>, length: int)
    requires
        forall|i: int| 0 <= i < parts.len() ==> modest(#[trigger] parts[i]),
        0 <= length <= parts.len(),
    ensures
        bytes_of(parts.take(length)) <= bytes_of(parts),
        tokens_of(parts.take(length)) <= tokens_of(parts),
    decreases parts.len(),
{
    if length == parts.len() {
        assert(parts.take(length) =~= parts);
    } else {
        let rest = parts.drop_last();
        assert forall|i: int| 0 <= i < rest.len() implies modest(#[trigger] rest[i]) by {
            assert(rest[i] == parts[i]);
        }
        prefix_is_smaller(rest, length);
        assert(rest.take(length) =~= parts.take(length));
        assert(modest(parts[parts.len() - 1]));
    }
}

pub(crate) proof fn parts_are_modest(manager: CacheResidencyManager)
    ensures
        forall|i: int| 0 <= i < manager.parts().len() ==> modest(#[trigger] manager.parts()[i]),
{
    let parts = manager.parts();
    assert forall|i: int| 0 <= i < parts.len() implies modest(#[trigger] parts[i]) by {
        let tails = manager.tails@.len();
        let blocks = manager.blocks@.len();
        if i < tails {
            assert(parts[i] == tail_part(manager.tails@[i]));
        } else if i < tails + blocks {
            assert(parts[i] == record_part(
                manager.host_write_reservations@,
                manager.blocks@[i - tails],
            ));
        } else {
            assert(parts[i] == reservation_part(
                manager.blocks@,
                manager.host_write_reservations@[i - tails - blocks],
            ));
        }
    }
}

/// The tally that a statistics value stands for while a scan is under way: its
/// protected recent blocks count the candidates for protection.
spec fn scanned(stats: CacheLayerResidencyStats) -> Tally {
    Tally {
        holdings: Holdings {
            recent_candidates: stats.protected_recent_blocks as int,
            ..stats@.holdings
        },
        tokens: stats.logical_cached_tokens as int,
    }
}

spec fn row_layers(rows: Seq<CacheLayerResidencyReport>) -> Seq<usize> {
    rows.map_values(|row: CacheLayerResidencyReport| row.global_layer)
}

/// The state of a catalog scan: totals over the scanned parts, and one row per layer.
spec fn scanning(
    all: CacheLayerResidencyStats,
    rows: Seq<CacheLayerResidencyReport>,
    parts: Seq<Part>,
) -> bool {
    &&& scanned(all) == tally(parts, None)
    &&& all@.activity == Activity::zero()
    &&& lists_layers(row_layers(rows), parts)
    &&& forall|i: int|
        0 <= i < rows.len() ==> scanned((#[trigger] rows[i]).stats) == tally(
            parts,
            Some(rows[i].global_layer),
        ) && rows[i].stats@.activity == Activity::zero()
}

/// Adds one part to a row of the scan.
fn absorb(stats: &mut CacheLayerResidencyStats, part: &CacheLayerResidencyStats)
    requires
        scanned(*old(stats)).with(scanned(*part).holdings, scanned(*part).tokens).holdings.within(
            u64::MAX as int,
            u64::MAX as int,
        ),
        old(stats)@.activity == Activity::zero(),
        part@.activity == Activity::zero(),
    ensures
        scanned(*final(stats)) == scanned(*old(stats)).with(
            scanned(*part).holdings,
            scanned(*part).tokens,
        ),
        final(stats)@.activity == Activity::zero(),
{
    let tokens: u64 = if stats.logical_cached_tokens >= part.logical_cached_tokens {
        stats.logical_cached_tokens
    } else {
        part.logical_cached_tokens
    };
    stats.logical_cached_tokens = 0;
    let mut part = *part;
    part.logical_cached_tokens = 0;
    stats.accumulate(&part);
    stats.logical_cached_tokens = tokens;
}

/// Finds the row of a layer, or makes one where it belongs.
fn row_for(rows: &mut Vec<CacheLayerResidencyReport>, layer: usize) -> (position: usize)
    requires
        forall|i: int, j: int|
            0 <= i < j < old(rows)@.len() ==> (#[trigger] old(rows)@[i]).global_layer < (
            #[trigger] old(rows)@[j]).global_layer,
    ensures
        position < final(rows)@.len(),
        position <= old(rows)@.len(),
        final(rows)@[position as int].global_layer == layer,
        forall|i: int, j: int|
            0 <= i < j < final(rows)@.len() ==> (#[trigger] final(rows)@[i]).global_layer < (
            #[trigger] final(rows)@[j]).global_layer,
        row_layers(old(rows)@).contains(layer) ==> final(rows)@ == old(rows)@,
        !row_layers(old(rows)@).contains(layer) ==> final(rows)@ == old(rows)@.insert(
            position as int,
            final(rows)@[position as int],
        ) && final(rows)@[position as int].stats@ == LayerTotals::zero(),
{
    let mut index: usize = 0;
    while index < rows.len() && rows[index].global_layer < layer
        invariant
            index <= rows@.len(),
            rows@ == old(rows)@,
            forall|i: int| 0 <= i < index ==> (#[trigger] rows@[i]).global_layer < layer,
        decreases rows@.len() - index,
    {
        index = index + 1;
    }
    if index < rows.len() && rows[index].global_layer == layer {
        assert(row_layers(rows@)[index as int] == layer);
        return index;
    }
    proof {
        if row_layers(rows@).contains(layer) {
            let i = choose|i: int|
                0 <= i < row_layers(rows@).len() && row_layers(rows@)[i] == layer;
            assert(rows@[i].global_layer == layer);
        }
    }
    rows.insert(
        index,
        CacheLayerResidencyReport {
            global_layer: layer,
            stats: CacheLayerResidencyStats::default(),
        },
    );
    index
}

/// Scans one part.
fn scan_part(
    all: &mut CacheLayerResidencyStats,
    rows: &mut Vec<CacheLayerResidencyReport>,
    layer: usize,
    part: &CacheLayerResidencyStats,
    Ghost(parts): Ghost<Seq<Part>>,
    Ghost(next): Ghost<Part>,
)
    requires
        scanning(*old(all), old(rows)@, parts),
        forall|i: int| 0 <= i < parts.len() ==> modest(#[trigger] parts[i]),
        modest(next),
        next.layer == layer,
        scanned(*part) == (Tally { holdings: next.holdings, tokens: next.tokens }),
        part@.activity == Activity::zero(),
        parts.len() + 1 <= u64::MAX,
        bytes_of(parts) + next.bytes <= u64::MAX,
    ensures
        scanning(*final(all), final(rows)@, parts.push(next)),
{
    let ghost after = parts.push(next);
    proof {
        tally_is_bounded(parts, None);
        tally_is_bounded(parts, Some(layer));
        assert(after.drop_last() =~= parts);
    }
    absorb(all, part);
    let ghost before = rows@;
    proof {
        assert forall|i: int, j: int| 0 <= i < j < before.len() implies (
        #[trigger] before[i]).global_layer < (#[trigger] before[j]).global_layer by {
            assert(row_layers(before)[i] < row_layers(before)[j]);
        }
    }
    let index: usize = row_for(rows, layer);
    let ghost found = rows@;
    proof {
        if !row_layers(before).contains(layer) {
            assert forall|i: int| 0 <= i < parts.len() implies (#[trigger] parts[i]).layer
                != layer by {
                assert(row_layers(before).contains(parts[i].layer));
            }
            no_part_no_tally(parts, layer);
            before.insert_ensures(index as int, found[index as int]);
        } else {
            let i = index as int;
            assert(scanned(before[i].stats) == tally(parts, Some(layer)));
        }
        assert(scanned(found[index as int].stats) == tally(parts, Some(layer)));
    }
    let mut row = rows[index];
    absorb(&mut row.stats, part);
    rows[index] = row;
    proof {
        let done = rows@;
        assert forall|i: int| 0 <= i < done.len() implies scanned((#[trigger] done[i]).stats)
            == tally(after, Some(done[i].global_layer)) && done[i].stats@.activity
            == Activity::zero() by {
            if i != index {
                assert(done[i] == found[i]);
                let source = if !row_layers(before).contains(layer) && i > index {
                    i - 1
                } else {
                    i
                };
                assert(found[i] == before[source]);
                assert(found[i].global_layer != layer);
            }
        }
        let layers = row_layers(done);
        assert forall|i: int, j: int| 0 <= i < j < layers.len() implies layers[i] < layers[j] by {
            assert(found[i].global_layer < found[j].global_layer);
        }
        assert forall|i: int| 0 <= i < after.len() implies layers.contains(
            (#[trigger] after[i]).layer,
        ) by {
            if i < parts.len() {
                assert(after[i] == parts[i]);
                let l = parts[i].layer;
                assert(row_layers(before).contains(l));
                let k = choose|k: int| 0 <= k < before.len() && row_layers(before)[k] == l;
                let target = if !row_layers(before).contains(layer) && k >= index {
                    k + 1
                } else {
                    k
                };
                assert(found[target] == before[k]);
                assert(layers[target] == l);
            } else {
                assert(layers[index as int] == layer);
            }
        }
        assert forall|i: int| 0 <= i < layers.len() implies exists|j: int|
            0 <= j < after.len() && (#[trigger] after[j]).layer == #[trigger] layers[i] by {
            if i == index {
                assert(after[parts.len() as int] == next);
            } else {
                let source = if !row_layers(before).contains(layer) && i > index {
                    i - 1
                } else {
                    i
                };
                assert(found[i] == before[source]);
                assert(row_layers(before)[source] == layers[i]);
                let j = choose|j: int|
                    0 <= j < parts.len() && (#[trigger] parts[j]).layer == row_layers(
                        before,
                    )[source];
                assert(after[j] == parts[j]);
            }
        }
    }
}

/// A layer without parts tallies to nothing.
proof fn no_part_no_tally(parts: Seq<Part>, layer: usize)
    requires
        forall|i: int| 0 <= i < parts.len() ==> (#[trigger] parts[i]).layer != layer,
    ensures
        tally(parts, Some(layer)) == Tally::zero(),
    decreases parts.len(),
{
    if parts.len() > 0 {
        let rest = parts.drop_last();
        assert forall|i: int| 0 <= i < rest.len() implies (#[trigger] rest[i]).layer != layer by {
            assert(rest[i] == parts[i]);
        }
        no_part_no_tally(rest, layer);
        assert(parts[parts.len() - 1].layer != layer);
    }
}

impl CacheResidencyManager {
    /// Whether a write has a reservation.
    pub fn has_reservation(&self, key: &DiskOperationKey) -> (found: bool)
        ensures
            found == reserved(self.host_write_reservations@, *key),
    {
        let mut index: usize = 0;
        while index < self.host_write_reservations.len()
            invariant
                index <= self.host_write_reservations@.len(),
                forall|i: int|
                    0 <= i < index ==> (#[trigger] self.host_write_reservations@[i]).ticket.key
                        != *key,
            decreases self.host_write_reservations@.len() - index,
        {
            if self.host_write_reservations[index].ticket.key == *key {
                return true;
            }
            index = index + 1;
        }
        false
    }

    fn tail_stats(tail: &CacheTail) -> (stats: CacheLayerResidencyStats)
        ensures
            scanned(stats) == (Tally {
                holdings: tail_part(*tail).holdings,
                tokens: tail_part(*tail).tokens,
            }),
            stats@.activity == Activity::zero(),
    {
        let mut stats = CacheLayerResidencyStats::default();
        stats.current_device_bytes = tail.bytes;
        stats.mutable_tail_bytes = tail.bytes;
        if tail.end > 0 {
            stats.logical_cached_tokens = tail.end as u64;
        }
        stats
    }

    fn record_stats(&self, record: &CacheBlockRecord) -> (stats: CacheLayerResidencyStats)
        ensures
            scanned(stats) == (Tally {
                holdings: record_part(self.host_write_reservations@, *record).holdings,
                tokens: record_part(self.host_write_reservations@, *record).tokens,
            }),
            stats@.activity == Activity::zero(),
    {
        let mut stats = CacheLayerResidencyStats::default();
        match record.id.representation {
            CacheRepresentation::KeyValue => {
                stats.key_value_blocks = 1;
            },
            CacheRepresentation::CompressedLatentRotary => {
                stats.compressed_latent_blocks = 1;
            },
        }
        let writing = match &record.pending_disk {
            Some(ticket) => ticket.key.kind == DiskOperationKind::Write && !self.has_reservation(
                &ticket.key,
            ),
            None => false,
        };
        if writing {
            stats.in_flight_write_blocks = 1;
            stats.in_flight_write_bytes = record.bytes;
            stats.current_host_bytes = record.bytes;
        }
        match record.tier {
            CacheTier::Device => {
                stats.device_blocks = 1;
                stats.current_device_bytes = record.bytes;
                if !record.protected_prefix {
                    stats.protected_recent_blocks = 1;
                }
            },
            CacheTier::Host => {
                stats.host_blocks = 1;
                stats.current_host_bytes = record.bytes;
            },
            CacheTier::Disk => {
                stats.disk_blocks = 1;
                stats.current_disk_bytes = record.bytes;
            },
        }
        if record.protected_prefix {
            stats.protected_prefix_blocks = 1;
        }
        if record.id.end > 0 {
            stats.logical_cached_tokens = record.id.end as u64;
        }
        stats
    }

    fn reservation_stats(&self, reservation: &HostWriteReservation) -> (stats:
        CacheLayerResidencyStats)
        requires
            crate::cache_residency::catalog::blocks_ordered(self.blocks@),
        ensures
            scanned(stats) == (Tally {
                holdings: reservation_part(self.blocks@, *reservation).holdings,
                tokens: 0,
            }),
            stats@.activity == Activity::zero(),
    {
        let mut stats = CacheLayerResidencyStats::default();
        stats.in_flight_write_blocks = 1;
        stats.in_flight_write_bytes = reservation.bytes;
        let covered = match self.find_block(&reservation.ticket.key.id) {
            Some(index) => {
                let record = &self.blocks[index];
                let same = match &record.pending_disk {
                    Some(ticket) => ticket.key == reservation.ticket.key,
                    None => false,
                };
                proof {
                    assert forall|i: int|
                        0 <= i < self.blocks@.len() && (#[trigger] self.blocks@[i]).id
                            == reservation.ticket.key.id implies i == index by {
                        crate::cache_residency::catalog::block_position_is_unique(
                            self.blocks@,
                            i,
                            index as int,
                        );
                    }
                }
                record.tier == CacheTier::Host && same
            },
            None => false,
        };
        assert(covered == covered_by_host_record(self.blocks@, *reservation));
        if !covered {
            stats.current_host_bytes = reservation.bytes;
        }
        stats
    }

    /// Scans the catalog once: totals over everything, and a row per active layer.
    fn scan(&self) -> (scan: (CacheLayerResidencyStats, Vec<CacheLayerResidencyReport>))
        requires
            crate::cache_residency::catalog::blocks_ordered(self.blocks@),
            self.fits(),
        ensures
            scanning(scan.0, scan.1@, self.parts()),
    {
        let mut all = CacheLayerResidencyStats::default();
        let mut rows: Vec<CacheLayerResidencyReport> = Vec::new();
        let ghost parts = self.parts();
        let ghost tails = self.tails@.len() as int;
        let ghost blocks = self.blocks@.len() as int;
        proof {
            parts_are_modest(*self);
            assert(parts.take(0) =~= Seq::empty());
            assert(row_layers(rows@) =~= Seq::empty());
        }
        let mut index: usize = 0;
        while index < self.tails.len()
            invariant
                parts == self.parts(),
                self.fits(),
                forall|i: int| 0 <= i < parts.len() ==> modest(#[trigger] parts[i]),
                index <= self.tails@.len(),
                scanning(all, rows@, parts.take(index as int)),
            decreases self.tails@.len() - index,
        {
            let tail = self.tails[index];
            let part = Self::tail_stats(&tail);
            proof {
                assert(parts[index as int] == tail_part(tail));
                prefix_is_smaller(parts, index + 1);
                assert(parts.take(index + 1).drop_last() =~= parts.take(index as int));
                assert(parts.take(index + 1) =~= parts.take(index as int).push(
                    parts[index as int],
                ));
            }
            scan_part(
                &mut all,
                &mut rows,
                tail.global_layer,
                &part,
                Ghost(parts.take(index as int)),
                Ghost(parts[index as int]),
            );
            index = index + 1;
        }
        let mut index: usize = 0;
        while index < self.blocks.len()
            invariant
                parts == self.parts(),
                self.fits(),
                forall|i: int| 0 <= i < parts.len() ==> modest(#[trigger] parts[i]),
                tails == self.tails@.len(),
                index <= self.blocks@.len(),
                scanning(all, rows@, parts.take(tails + index)),
            decreases self.blocks@.len() - index,
        {
            let record = &self.blocks[index];
            let part = self.record_stats(record);
            proof {
                let at = tails + index;
                assert(parts[at] == record_part(self.host_write_reservations@, *record));
                prefix_is_smaller(parts, at + 1);
                assert(parts.take(at + 1).drop_last() =~= parts.take(at));
                assert(parts.take(at + 1) =~= parts.take(at).push(parts[at]));
            }
            scan_part(
                &mut all,
                &mut rows,
                record.id.global_layer,
                &part,
                Ghost(parts.take(tails + index)),
                Ghost(parts[tails + index]),
            );
            index = index + 1;
        }
        let mut index: usize = 0;
        while index < self.host_write_reservations.len()
            invariant
                parts == self.parts(),
                self.fits(),
                crate::cache_residency::catalog::blocks_ordered(self.blocks@),
                forall|i: int| 0 <= i < parts.len() ==> modest(#[trigger] parts[i]),
                tails == self.tails@.len(),
                blocks == self.blocks@.len(),
                index <= self.host_write_reservations@.len(),
                scanning(all, rows@, parts.take(tails + blocks + index)),
            decreases self.host_write_reservations@.len() - index,
        {
            let reservation = self.host_write_reservations[index];
            let part = self.reservation_stats(&reservation);
            proof {
                let at = tails + blocks + index;
                assert(parts[at] == reservation_part(self.blocks@, reservation));
                prefix_is_smaller(parts, at + 1);
                assert(parts.take(at + 1).drop_last() =~= parts.take(at));
                assert(parts.take(at + 1) =~= parts.take(at).push(parts[at]));
            }
            scan_part(
                &mut all,
                &mut rows,
                reservation.global_layer,
                &part,
                Ghost(parts.take(tails + blocks + index)),
                Ghost(parts[tails + blocks + index]),
            );
            index = index + 1;
        }
        assert(parts.take(tails + blocks + index) =~= parts);
        (all, rows)
    }
}

/// Ascending lists of layers.
pub open spec fn ascending(layers: Seq<usize>) -> bool {
    forall|i: int, j: int| 0 <= i < j < layers.len() ==> layers[i] < layers[j]
}

/// What one more part adds to the sum over some layers.
proof fn one_more_part(parts: Seq<Part>, part: Part, recent: usize, layers: Seq<usize>)
    requires
        ascending(layers),
        modest(part),
        forall|i: int| 0 <= i < parts.len() ==> modest(#[trigger] parts[i]),
    ensures
        ({
            let before = summed_totals(parts, recent, layers);
            let after = summed_totals(parts.push(part), recent, layers);
            if layers.contains(part.layer) {
                &&& after.holdings == before.holdings.plus(part.holdings.reported())
                &&& before.logical_cached_tokens <= after.logical_cached_tokens
                    <= before.logical_cached_tokens + part.tokens
                &&& before.protected_recent_blocks <= after.protected_recent_blocks
                    <= before.protected_recent_blocks + 1
                &&& after.activity == before.activity
            } else {
                after == before
            }
        }),
    decreases layers.len(),
{
    if layers.len() > 0 {
        let rest = layers.drop_last();
        let last = layers.last();
        assert(ascending(rest)) by {
            assert forall|i: int, j: int| 0 <= i < j < rest.len() implies rest[i] < rest[j] by {
                assert(rest[i] == layers[i] && rest[j] == layers[j]);
            }
        }
        one_more_part(parts, part, recent, rest);
        assert(parts.push(part).drop_last() =~= parts);
        tally_is_bounded(parts, Some(last));
        if part.layer == last {
            assert(!rest.contains(part.layer)) by {
                if rest.contains(part.layer) {
                    let i = choose|i: int| 0 <= i < rest.len() && rest[i] == part.layer;
                    assert(layers[i] < layers[layers.len() - 1]);
                }
            }
            assert(layers.contains(last)) by {
                assert(layers[layers.len() - 1] == last);
            }
        } else {
            if layers.contains(part.layer) {
                let i = choose|i: int| 0 <= i < layers.len() && layers[i] == part.layer;
                assert(rest[i] == part.layer);
            }
            if rest.contains(part.layer) {
                let i = choose|i: int| 0 <= i < rest.len() && rest[i] == part.layer;
                assert(layers[i] == part.layer);
            }
        }
    }
}

/// The sum over no parts is nothing.
proof fn no_parts_no_totals(recent: usize, layers: Seq<usize>)
    ensures
        summed_totals(Seq::<Part>::empty(), recent, layers) == LayerTotals::zero(),
    decreases layers.len(),
{
    if layers.len() > 0 {
        no_parts_no_totals(recent, layers.drop_last());
    }
}

/// The sum over some layers is bounded by the number, bytes and tokens of the parts.
proof fn summed_totals_are_bounded(parts: Seq<Part>, recent: usize, layers: Seq<usize>)
    requires
        ascending(layers),
        forall|i: int| 0 <= i < parts.len() ==> modest(#[trigger] parts[i]),
    ensures
        ({
            let sum = summed_totals(parts, recent, layers);
            &&& sum.holdings.within(parts.len() as int, bytes_of(parts))
            &&& 0 <= sum.logical_cached_tokens <= tokens_of(parts)
            &&& 0 <= sum.protected_recent_blocks <= parts.len()
            &&& sum.activity == Activity::zero()
        }),
    decreases parts.len(),
{
    if parts.len() == 0 {
        assert(parts =~= Seq::<Part>::empty());
        no_parts_no_totals(recent, layers);
    } else {
        let rest = parts.drop_last();
        assert forall|i: int| 0 <= i < rest.len() implies modest(#[trigger] rest[i]) by {
            assert(rest[i] == parts[i]);
        }
        assert(modest(parts[parts.len() - 1]));
        summed_totals_are_bounded(rest, recent, layers);
        one_more_part(rest, parts.last(), recent, layers);
        assert(rest.push(parts.last()) =~= parts);
    }
}

/// The layers' holdings add up to the holdings of everything.
proof fn layers_add_up(parts: Seq<Part>, recent: usize, layers: Seq<usize>)
    requires
        ascending(layers),
        forall|i: int| 0 <= i < parts.len() ==> modest(#[trigger] parts[i]),
        forall|i: int| 0 <= i < parts.len() ==> layers.contains((#[trigger] parts[i]).layer),
    ensures
        summed_totals(parts, recent, layers).holdings == tally(parts, None).holdings.reported(),
    decreases parts.len(),
{
    if parts.len() == 0 {
        assert(parts =~= Seq::<Part>::empty());
        no_parts_no_totals(recent, layers);
    } else {
        let rest = parts.drop_last();
        assert forall|i: int| 0 <= i < rest.len() implies modest(#[trigger] rest[i])
            && layers.contains(rest[i].layer) by {
            assert(rest[i] == parts[i]);
        }
        assert(modest(parts[parts.len() - 1]));
        layers_add_up(rest, recent, layers);
        one_more_part(rest, parts.last(), recent, layers);
        assert(rest.push(parts.last()) =~= parts);
    }
}

/// The sum over the first layers never exceeds the protected blocks of all parts.
proof fn prefix_totals_are_bounded(
    parts: Seq<Part>,
    recent: usize,
    layers: Seq<usize>,
    length: int,
)
    requires
        ascending(layers),
        0 <= length <= layers.len(),
        forall|i: int| 0 <= i < parts.len() ==> modest(#[trigger] parts[i]),
    ensures
        ({
            let sum = summed_totals(parts, recent, layers.take(length));
            &&& 0 <= sum.protected_recent_blocks <= parts.len()
        }),
{
    let prefix = layers.take(length);
    assert forall|i: int, j: int| 0 <= i < j < prefix.len() implies prefix[i] < prefix[j] by {
        assert(prefix[i] == layers[i] && prefix[j] == layers[j]);
    }
    summed_totals_are_bounded(parts, recent, prefix);
}

/// Rows whose protection is settled equal the current totals of their layers.
spec fn settled_rows(
    rows: Seq<CacheLayerResidencyReport>,
    parts: Seq<Part>,
    recent: usize,
) -> bool {
    forall|i: int|
        0 <= i < rows.len() ==> (#[trigger] rows[i]).stats@ == current_totals(
            parts,
            recent,
            rows[i].global_layer,
        )
}

/// Caps the protected blocks of every row and adds them up.
fn settle_rows(
    rows: &mut Vec<CacheLayerResidencyReport>,
    recent: usize,
    Ghost(parts): Ghost<Seq<Part>>,
) -> (protected: u64)
    requires
        lists_layers(row_layers(old(rows)@), parts),
        forall|i: int|
            0 <= i < old(rows)@.len() ==> scanned((#[trigger] old(rows)@[i]).stats) == tally(
                parts,
                Some(old(rows)@[i].global_layer),
            ) && old(rows)@[i].stats@.activity == Activity::zero(),
        forall|i: int| 0 <= i < parts.len() ==> modest(#[trigger] parts[i]),
        parts.len() <= u64::MAX,
    ensures
        row_layers(final(rows)@) == row_layers(old(rows)@),
        settled_rows(final(rows)@, parts, recent),
        protected == summed_totals(
            parts,
            recent,
            row_layers(old(rows)@),
        ).protected_recent_blocks,
{
    let ghost layers = row_layers(rows@);
    let mut protected: u64 = 0;
    let mut index: usize = 0;
    proof {
        assert(layers.take(0) =~= Seq::empty());
    }
    while index < rows.len()
        invariant
            index <= rows@.len(),
            layers == row_layers(old(rows)@),
            row_layers(rows@) == layers,
            lists_layers(layers, parts),
            forall|i: int| 0 <= i < parts.len() ==> modest(#[trigger] parts[i]),
            parts.len() <= u64::MAX,
            forall|i: int|
                index <= i < rows@.len() ==> scanned((#[trigger] rows@[i]).stats) == tally(
                    parts,
                    Some(rows@[i].global_layer),
                ) && rows@[i].stats@.activity == Activity::zero(),
            forall|i: int|
                0 <= i < index ==> (#[trigger] rows@[i]).stats@ == current_totals(
                    parts,
                    recent,
                    rows@[i].global_layer,
                ),
            protected == summed_totals(
                parts,
                recent,
                layers.take(index as int),
            ).protected_recent_blocks,
        decreases rows@.len() - index,
    {
        let ghost before = rows@;
        let mut row = rows[index];
        if row.stats.protected_recent_blocks > recent as u64 {
            row.stats.protected_recent_blocks = recent as u64;
        }
        proof {
            assert(layers[index as int] == row.global_layer);
            assert(layers.take(index + 1).drop_last() =~= layers.take(index as int));
            assert(layers.take(index + 1).last() == row.global_layer);
            prefix_totals_are_bounded(parts, recent, layers, index + 1);
        }
        protected = protected + row.stats.protected_recent_blocks;
        rows[index] = row;
        index = index + 1;
        assert(row_layers(rows@) =~= layers);
    }
    assert(layers.take(index as int) =~= layers);
    protected
}

/// Position of an observed layer.
fn observed_position(activity: &Vec<LayerActivity>, layer: usize) -> (position: Option<usize>)
    ensures
        match position {
            Some(i) => i < activity@.len() && activity@[i as int].global_layer == layer
                && is_observed(activity@, layer),
            None => !is_observed(activity@, layer),
        },
{
    let mut index: usize = 0;
    while index < activity.len()
        invariant
            index <= activity@.len(),
            forall|i: int| 0 <= i < index ==> (#[trigger] activity@[i]).global_layer != layer,
        decreases activity@.len() - index,
    {
        if activity[index].global_layer == layer {
            return Some(index);
        }
        index = index + 1;
    }
    None
}

/// In ordered activity a layer's row is the one at its position.
proof fn activity_of_is(activity: Seq<LayerActivity>, i: int)
    requires
        crate::cache_residency::catalog::activity_ordered(activity),
        0 <= i < activity.len(),
    ensures
        is_observed(activity, activity[i].global_layer),
        activity_of(activity, activity[i].global_layer) == activity[i].counters@,
{
    let layer = activity[i].global_layer;
    let j = choose|j: int| 0 <= j < activity.len() && (#[trigger] activity[j]).global_layer == layer;
    if i < j {
        assert(activity[i].global_layer < activity[j].global_layer);
    }
    if j < i {
        assert(activity[j].global_layer < activity[i].global_layer);
    }
}

/// The split of fresh layers into rows and overflow.
struct FreshSplit {
    shown: Vec<CacheLayerResidencyReport>,
    hidden_layers: u64,
    hidden: CacheLayerResidencyStats,
}

spec fn lesser(a: int, b: int) -> int {
    if a <= b {
        a
    } else {
        b
    }
}

/// Splits the active layers without an activity row.
#[verifier::rlimit(60)]
fn split_fresh(
    rows: &Vec<CacheLayerResidencyReport>,
    activity: &Vec<LayerActivity>,
    recent: usize,
    Ghost(parts): Ghost<Seq<Part>>,
) -> (split: FreshSplit)
    requires
        lists_layers(row_layers(rows@), parts),
        settled_rows(rows@, parts, recent),
        forall|i: int| 0 <= i < parts.len() ==> modest(#[trigger] parts[i]),
        activity@.len() <= CACHE_RESIDENCY_LAYER_REPORT_LIMIT,
        parts.len() <= u64::MAX,
        bytes_of(parts) <= u64::MAX,
        tokens_of(parts) <= u64::MAX,
    ensures
        ({
            let layers = row_layers(rows@);
            let fresh = fresh_layers(layers, activity@);
            let shown = fresh_rows(layers, activity@);
            &&& row_layers(split.shown@) == fresh.take(shown)
            &&& ascending(fresh.take(shown))
            &&& settled_rows(split.shown@, parts, recent)
            &&& forall|i: int|
                0 <= i < split.shown@.len() ==> !is_observed(
                    activity@,
                    (#[trigger] split.shown@[i]).global_layer,
                )
            &&& split.hidden_layers == fresh.skip(shown).len()
            &&& split.hidden@ == summed_totals(parts, recent, fresh.skip(shown))
        }),
{
    let ghost layers = row_layers(rows@);
    let ghost keep = |layer: usize| !is_observed(activity@, layer);
    let free: usize = CACHE_RESIDENCY_LAYER_REPORT_LIMIT - activity.len();
    let mut shown: Vec<CacheLayerResidencyReport> = Vec::new();
    let mut hidden_layers: u64 = 0;
    let mut hidden = CacheLayerResidencyStats::default();
    let mut index: usize = 0;
    let ghost mut fresh: Seq<usize> = Seq::empty();
    proof {
        assert(layers.take(0) =~= Seq::empty());
        reveal(Seq::filter);
        assert(layers.take(0).filter(keep) =~= fresh);
        assert(row_layers(shown@) =~= fresh.take(0));
        assert(fresh.skip(0) =~= Seq::empty());
    }
    while index < rows.len()
        invariant
            index <= rows@.len(),
            layers == row_layers(rows@),
            lists_layers(layers, parts),
            settled_rows(rows@, parts, recent),
            keep == (|layer: usize| !is_observed(activity@, layer)),
            forall|i: int| 0 <= i < parts.len() ==> modest(#[trigger] parts[i]),
            parts.len() <= u64::MAX,
            bytes_of(parts) <= u64::MAX,
            tokens_of(parts) <= u64::MAX,
            free == CACHE_RESIDENCY_LAYER_REPORT_LIMIT - activity@.len(),
            fresh == layers.take(index as int).filter(keep),
            fresh.len() <= index,
            ascending(fresh),
            forall|i: int| 0 <= i < fresh.len() ==> keep(#[trigger] fresh[i]),
            fresh.len() > 0 ==> index > 0 && fresh.last() <= layers[index - 1],
            row_layers(shown@) == fresh.take(lesser(fresh.len() as int, free as int)),
            settled_rows(shown@, parts, recent),
            hidden_layers == fresh.skip(lesser(fresh.len() as int, free as int)).len(),
            hidden@ == summed_totals(
                parts,
                recent,
                fresh.skip(lesser(fresh.len() as int, free as int)),
            ),
        decreases rows@.len() - index,
    {
        let row = rows[index];
        let ghost earlier = fresh;
        proof {
            reveal(Seq::filter);
            assert(layers[index as int] == row.global_layer);
            assert(layers.take(index + 1).drop_last() =~= layers.take(index as int));
            assert(layers.take(index + 1).last() == row.global_layer);
        }
        if observed_position(activity, row.global_layer).is_none() {
            proof {
                fresh = earlier.push(row.global_layer);
                assert(fresh == layers.take(index + 1).filter(keep));
                assert(ascending(fresh)) by {
                    if earlier.len() > 0 {
                        assert(layers[index - 1] < layers[index as int]);
                    }
                    assert forall|i: int, j: int| 0 <= i < j < fresh.len() implies fresh[i]
                        < fresh[j] by {
                        if j == earlier.len() {
                            assert(earlier[i] <= earlier.last()) by {
                                if i < earlier.len() - 1 {
                                    assert(earlier[i] < earlier[earlier.len() - 1]);
                                }
                            }
                        }
                    }
                }
            }
            assert(row_layers(shown@).len() == shown@.len());
            if shown.len() < free {
                shown.push(row);
                proof {
                    assert(earlier.len() < free);
                    assert(fresh.take(fresh.len() as int) =~= earlier.take(
                        earlier.len() as int,
                    ).push(row.global_layer));
                    assert(row_layers(shown@) =~= fresh.take(fresh.len() as int));
                    assert(fresh.skip(fresh.len() as int) =~= earlier.skip(earlier.len() as int));
                }
            } else {
                proof {
                    assert(earlier.len() >= free);
                    assert(fresh.take(free as int) =~= earlier.take(free as int));
                    let after = fresh.skip(free as int);
                    assert(after =~= earlier.skip(free as int).push(row.global_layer));
                    assert(after.drop_last() =~= earlier.skip(free as int));
                    assert(ascending(after)) by {
                        assert forall|i: int, j: int| 0 <= i < j < after.len() implies after[i]
                            < after[j] by {
                            assert(after[i] == fresh[i + free] && after[j] == fresh[j + free]);
                        }
                    }
                    summed_totals_are_bounded(parts, recent, after);
                }
                hidden_layers = hidden_layers + 1;
                hidden.accumulate(&row.stats);
            }
        } else {
            proof {
                assert(fresh == layers.take(index + 1).filter(keep));
                if fresh.len() > 0 {
                    assert(layers[index - 1] < layers[index as int]);
                }
            }
        }
        index = index + 1;
    }
    proof {
        assert(layers.take(index as int) =~= layers);
        assert(fresh == fresh_layers(layers, activity@));
        let count = fresh_rows(layers, activity@);
        assert(ascending(fresh.take(count))) by {
            assert forall|i: int, j: int| 0 <= i < j < fresh.take(count).len() implies fresh.take(
                count,
            )[i] < fresh.take(count)[j] by {
                assert(fresh[i] < fresh[j]);
            }
        }
        assert forall|i: int| 0 <= i < shown@.len() implies !is_observed(
            activity@,
            (#[trigger] shown@[i]).global_layer,
        ) by {
            assert(row_layers(shown@)[i] == fresh[i]);
            assert(keep(fresh[i]));
        }
    }
    FreshSplit { shown, hidden_layers, hidden }
}

/// The current totals of a layer, from its row or from its absence.
fn totals_of_layer(
    rows: &Vec<CacheLayerResidencyReport>,
    layer: usize,
    recent: usize,
    Ghost(parts): Ghost<Seq<Part>>,
) -> (stats: CacheLayerResidencyStats)
    requires
        lists_layers(row_layers(rows@), parts),
        settled_rows(rows@, parts, recent),
    ensures
        stats@ == current_totals(parts, recent, layer),
{
    let mut index: usize = 0;
    while index < rows.len()
        invariant
            index <= rows@.len(),
            settled_rows(rows@, parts, recent),
            forall|i: int| 0 <= i < index ==> (#[trigger] rows@[i]).global_layer != layer,
        decreases rows@.len() - index,
    {
        if rows[index].global_layer == layer {
            return rows[index].stats;
        }
        index = index + 1;
    }
    proof {
        assert forall|i: int| 0 <= i < parts.len() implies (#[trigger] parts[i]).layer != layer by {
            let layers = row_layers(rows@);
            assert(layers.contains(parts[i].layer));
            let k = choose|k: int| 0 <= k < layers.len() && layers[k] == parts[i].layer;
            assert(rows@[k].global_layer == parts[i].layer);
        }
        no_part_no_tally(parts, layer);
    }
    CacheLayerResidencyStats::default()
}

/// A row stays when another one is pushed, and the pushed row is there.
proof fn push_keeps_rows(
    rows: Seq<CacheLayerResidencyReport>,
    row: CacheLayerResidencyReport,
)
    ensures
        has_row(rows.push(row), row.global_layer),
        forall|layer: usize| has_row(rows, layer) ==> #[trigger] has_row(rows.push(row), layer),
{
    let after = rows.push(row);
    assert(after[rows.len() as int] == row);
    assert forall|layer: usize| has_row(rows, layer) implies #[trigger] has_row(after, layer) by {
        let i = choose|i: int| 0 <= i < rows.len() && (#[trigger] rows[i]).global_layer == layer;
        assert(after[i] == rows[i]);
    }
}

/// Merges the rows of observed layers with those of shown fresh layers.
fn merge_rows(
    rows: &Vec<CacheLayerResidencyReport>,
    shown: &Vec<CacheLayerResidencyReport>,
    activity: &Vec<LayerActivity>,
    recent: usize,
    Ghost(parts): Ghost<Seq<Part>>,
) -> (merged: Vec<CacheLayerResidencyReport>)
    requires
        lists_layers(row_layers(rows@), parts),
        settled_rows(rows@, parts, recent),
        settled_rows(shown@, parts, recent),
        ascending(row_layers(shown@)),
        crate::cache_residency::catalog::activity_ordered(activity@),
        activity@.len() + shown@.len() <= usize::MAX,
        forall|i: int|
            0 <= i < shown@.len() ==> !is_observed(
                activity@,
                (#[trigger] shown@[i]).global_layer,
            ),
        forall|i: int| 0 <= i < activity@.len() ==> (#[trigger] activity@[i]).counters@.fits(),
    ensures
        merged@.len() == activity@.len() + shown@.len(),
        forall|i: int, j: int|
            0 <= i < j < merged@.len() ==> (#[trigger] merged@[i]).global_layer < (
            #[trigger] merged@[j]).global_layer,
        forall|i: int|
            0 <= i < merged@.len() ==> is_observed(
                activity@,
                (#[trigger] merged@[i]).global_layer,
            ) || row_layers(shown@).contains(merged@[i].global_layer),
        forall|i: int|
            0 <= i < merged@.len() ==> (#[trigger] merged@[i]).stats@ == (LayerTotals {
                activity: activity_of(activity@, merged@[i].global_layer),
                ..current_totals(parts, recent, merged@[i].global_layer)
            }),
        forall|i: int|
            0 <= i < activity@.len() ==> has_row(merged@, (#[trigger] activity@[i]).global_layer),
        forall|i: int|
            0 <= i < shown@.len() ==> has_row(merged@, (#[trigger] shown@[i]).global_layer),
{
    let mut merged: Vec<CacheLayerResidencyReport> = Vec::new();
    let mut left: usize = 0;
    let mut right: usize = 0;
    while left < activity.len() || right < shown.len()
        invariant
            left <= activity@.len(),
            right <= shown@.len(),
            merged@.len() == left + right,
            activity@.len() + shown@.len() <= usize::MAX,
            lists_layers(row_layers(rows@), parts),
            settled_rows(rows@, parts, recent),
            settled_rows(shown@, parts, recent),
            ascending(row_layers(shown@)),
            crate::cache_residency::catalog::activity_ordered(activity@),
            forall|i: int|
                0 <= i < shown@.len() ==> !is_observed(
                    activity@,
                    (#[trigger] shown@[i]).global_layer,
                ),
            forall|i: int|
                0 <= i < activity@.len() ==> (#[trigger] activity@[i]).counters@.fits(),
            forall|i: int, j: int|
                0 <= i < j < merged@.len() ==> (#[trigger] merged@[i]).global_layer < (
                #[trigger] merged@[j]).global_layer,
            forall|i: int, j: int|
                0 <= i < merged@.len() && left <= j < activity@.len() ==> (
                #[trigger] merged@[i]).global_layer < (#[trigger] activity@[j]).global_layer,
            forall|i: int, j: int|
                0 <= i < merged@.len() && right <= j < shown@.len() ==> (
                #[trigger] merged@[i]).global_layer < (#[trigger] shown@[j]).global_layer,
            forall|i: int|
                0 <= i < merged@.len() ==> is_observed(
                    activity@,
                    (#[trigger] merged@[i]).global_layer,
                ) || row_layers(shown@).contains(merged@[i].global_layer),
            forall|i: int|
                0 <= i < merged@.len() ==> (#[trigger] merged@[i]).stats@ == (LayerTotals {
                    activity: activity_of(activity@, merged@[i].global_layer),
                    ..current_totals(parts, recent, merged@[i].global_layer)
                }),
            forall|i: int|
                0 <= i < left ==> has_row(merged@, (#[trigger] activity@[i]).global_layer),
            forall|i: int|
                0 <= i < right ==> has_row(merged@, (#[trigger] shown@[i]).global_layer),
        decreases activity@.len() - left + shown@.len() - right,
    {
        let ghost before = merged@;
        let take_left = right >= shown.len() || (left < activity.len()
            && activity[left].global_layer < shown[right].global_layer);
        if take_left {
            let observed = activity[left];
            let mut stats = totals_of_layer(rows, observed.global_layer, recent, Ghost(parts));
            proof {
                activity_of_is(activity@, left as int);
            }
            observed.counters.apply_to(&mut stats);
            proof {
                if right < shown@.len() {
                    assert forall|j: int| right <= j < shown@.len() implies observed.global_layer
                        < (#[trigger] shown@[j]).global_layer by {
                        if j > right {
                            assert(row_layers(shown@)[right as int] < row_layers(shown@)[j]);
                        }
                    }
                }
            }
            merged.push(
                CacheLayerResidencyReport { global_layer: observed.global_layer, stats },
            );
            left = left + 1;
            proof {
                push_keeps_rows(before, merged@.last());
            }
        } else {
            let row = shown[right];
            proof {
                assert(row_layers(shown@)[right as int] == row.global_layer);
                assert forall|j: int| right + 1 <= j < shown@.len() implies row.global_layer < (
                #[trigger] shown@[j]).global_layer by {
                    assert(row_layers(shown@)[right as int] < row_layers(shown@)[j]);
                }
                assert forall|j: int| left <= j < activity@.len() implies row.global_layer < (
                #[trigger] activity@[j]).global_layer by {
                    assert(is_observed(activity@, activity@[left as int].global_layer));
                    if j > left {
                        assert(activity@[left as int].global_layer < activity@[j].global_layer);
                    }
                }
            }
            merged.push(row);
            right = right + 1;
            proof {
                push_keeps_rows(before, merged@.last());
            }
        }
    }
    merged
}

/// Each observed layer's activity fits where all of it together does.
proof fn observed_activity_fits(activity: Seq<LayerActivity>)
    requires
        crate::cache_residency::catalog::observed_activity(activity).fits(),
    ensures
        forall|i: int| 0 <= i < activity.len() ==> (#[trigger] activity[i]).counters@.fits(),
    decreases activity.len(),
{
    if activity.len() > 0 {
        let rest = activity.drop_last();
        observed_activity_is_nonnegative(rest);
        observed_activity_fits(rest);
        assert forall|i: int| 0 <= i < activity.len() implies (
        #[trigger] activity[i]).counters@.fits() by {
            if i < rest.len() {
                assert(rest[i] == activity[i]);
            }
        }
    }
}

proof fn observed_activity_is_nonnegative(activity: Seq<LayerActivity>)
    ensures
        Activity::zero().at_most(crate::cache_residency::catalog::observed_activity(activity)),
    decreases activity.len(),
{
    if activity.len() > 0 {
        observed_activity_is_nonnegative(activity.drop_last());
    }
}

impl CacheResidencyManager {
    /// Recomputes every current total of the report from the catalog.
    pub fn update_report_totals(&mut self)
        requires
            old(self).wf(),
            old(self).fits(),
        ensures
            final(self).wf(),
            final(self).reports(old(self).report),
            *final(self) == (CacheResidencyManager { report: final(self).report, ..*old(self) }),
    {
        let ghost parts = self.parts();
        let recent: usize = self.options.recent_device_blocks();
        let scan = self.scan();
        let all = scan.0;
        let mut rows = scan.1;
        proof {
            parts_are_modest(*self);
        }
        let protected: u64 = settle_rows(&mut rows, recent, Ghost(parts));
        let split = split_fresh(&rows, &self.layer_activity, recent, Ghost(parts));
        proof {
            let observed = crate::cache_residency::catalog::observed_activity(
                self.layer_activity@,
            );
            observed_activity_is_nonnegative(self.layer_activity@);
            assert(observed.fits());
            observed_activity_fits(self.layer_activity@);
        }
        assert(row_layers(split.shown@).len() == split.shown@.len());
        let merged = merge_rows(
            &rows,
            &split.shown,
            &self.layer_activity,
            recent,
            Ghost(parts),
        );
        let mut overflow = split.hidden;
        proof {
            let layers = row_layers(rows@);
            let fresh = fresh_layers(layers, self.layer_activity@);
            let hidden = fresh.skip(fresh_rows(layers, self.layer_activity@));
            assert(overflow@.activity == Activity::zero()) by {
                summed_activity_is_zero(parts, recent, hidden);
            }
        }
        self.layer_activity_overflow.apply_to(&mut overflow);
        self.report.logical_cached_tokens = all.logical_cached_tokens;
        self.report.key_value_blocks = all.key_value_blocks;
        self.report.compressed_latent_blocks = all.compressed_latent_blocks;
        self.report.device_blocks = all.device_blocks;
        self.report.host_blocks = all.host_blocks;
        self.report.disk_blocks = all.disk_blocks;
        self.report.current_device_bytes = all.current_device_bytes;
        self.report.current_host_bytes = all.current_host_bytes;
        self.report.current_disk_bytes = all.current_disk_bytes;
        self.report.mutable_tail_bytes = all.mutable_tail_bytes;
        self.report.in_flight_write_blocks = all.in_flight_write_blocks;
        self.report.in_flight_write_bytes = all.in_flight_write_bytes;
        self.report.protected_prefix_blocks = all.protected_prefix_blocks;
        self.report.protected_recent_blocks = protected;
        self.report.per_layer = merged;
        self.report.per_layer_overflow_layers = split.hidden_layers;
        self.report.per_layer_overflow = overflow;
        if self.report.current_device_bytes <= self.options.device_budget_bytes()
            && self.report.current_device_bytes > self.report.peak_device_bytes {
            self.report.peak_device_bytes = self.report.current_device_bytes;
        }
        if self.report.current_host_bytes <= self.options.host_budget_bytes()
            && self.report.current_host_bytes > self.report.peak_host_bytes {
            self.report.peak_host_bytes = self.report.current_host_bytes;
        }
        let disk_admitted = match self.options.disk_budget() {
            Some(budget) => self.report.current_disk_bytes <= budget,
            None => true,
        };
        if disk_admitted && self.report.current_disk_bytes > self.report.peak_disk_bytes {
            self.report.peak_disk_bytes = self.report.current_disk_bytes;
        }
        if self.report.in_flight_write_bytes > self.report.peak_in_flight_write_bytes {
            self.report.peak_in_flight_write_bytes = self.report.in_flight_write_bytes;
        }
        proof {
            assert(self.parts() == parts);
            let layers = row_layers(rows@);
            layer_lists_agree(layers, active_layers(parts), parts);
            assert(self.report.activity() == old(self).report.activity());
            let fresh = fresh_layers(layers, self.layer_activity@);
            let shown = fresh_rows(layers, self.layer_activity@);
            assert forall|i: int| 0 <= i < shown implies has_row(
                self.report.per_layer@,
                #[trigger] fresh[i],
            ) by {
                assert(row_layers(split.shown@)[i] == fresh.take(shown)[i]);
                assert(has_row(merged@, split.shown@[i].global_layer));
            }
        }
    }
}

/// Parts of the same sizes and positions weigh the same.
pub(crate) proof fn weights_agree(left: Seq<Part>, right: Seq<Part>)
    requires
        left.len() == right.len(),
        forall|i: int|
            0 <= i < left.len() ==> (#[trigger] left[i]).bytes == right[i].bytes && left[i].tokens
                == right[i].tokens,
    ensures
        bytes_of(left) == bytes_of(right),
        tokens_of(left) == tokens_of(right),
    decreases left.len(),
{
    if left.len() > 0 {
        let l = left.drop_last();
        let r = right.drop_last();
        assert forall|i: int| 0 <= i < l.len() implies (#[trigger] l[i]).bytes == r[i].bytes
            && l[i].tokens == r[i].tokens by {
            assert(l[i] == left[i] && r[i] == right[i]);
        }
        weights_agree(l, r);
        assert(left[left.len() - 1].bytes == right[left.len() - 1].bytes);
    }
}

/// Inserting a part adds its weight.
pub(crate) proof fn insertion_weighs(parts: Seq<Part>, position: int, part: Part)
    requires
        0 <= position <= parts.len(),
    ensures
        bytes_of(parts.insert(position, part)) == bytes_of(parts) + part.bytes,
        tokens_of(parts.insert(position, part)) == tokens_of(parts) + part.tokens,
    decreases parts.len(),
{
    let after = parts.insert(position, part);
    if position == parts.len() {
        assert(after.drop_last() =~= parts);
    } else {
        let rest = parts.drop_last();
        insertion_weighs(rest, position, part);
        assert(after.drop_last() =~= rest.insert(position, part));
        assert(after.last() == parts.last());
    }
}

/// Removing a part takes its weight away.
pub(crate) proof fn removal_weighs(parts: Seq<Part>, position: int)
    requires
        0 <= position < parts.len(),
    ensures
        bytes_of(parts.remove(position)) == bytes_of(parts) - parts[position].bytes,
        tokens_of(parts.remove(position)) == tokens_of(parts) - parts[position].tokens,
{
    let after = parts.remove(position);
    insertion_weighs(after, position, parts[position]);
    assert(after.insert(position, parts[position]) =~= parts);
}

/// A catalog whose tails, blocks and reservations keep their sizes and positions
/// keeps its weight.
pub(crate) proof fn same_weight(before: CacheResidencyManager, after: CacheResidencyManager)
    requires
        before.tails@ == after.tails@,
        before.host_write_reservations@ == after.host_write_reservations@,
        before.blocks@.len() == after.blocks@.len(),
        forall|i: int|
            0 <= i < before.blocks@.len() ==> (#[trigger] before.blocks@[i]).id == after.blocks@[i].id
                && before.blocks@[i].bytes == after.blocks@[i].bytes,
    ensures
        before.parts().len() == after.parts().len(),
        bytes_of(before.parts()) == bytes_of(after.parts()),
        tokens_of(before.parts()) == tokens_of(after.parts()),
{
    let left = before.parts();
    let right = after.parts();
    let tails = before.tails@.len() as int;
    let blocks = before.blocks@.len() as int;
    assert forall|i: int| 0 <= i < left.len() implies (#[trigger] left[i]).bytes == right[i].bytes
        && left[i].tokens == right[i].tokens by {
        if tails <= i < tails + blocks {
            assert(before.blocks@[i - tails].id == after.blocks@[i - tails].id);
        }
    }
    weights_agree(left, right);
}

/// A cataloged block more weighs its bytes and tokens more.
pub(crate) proof fn block_insertion_weight(
    before: CacheResidencyManager,
    after: CacheResidencyManager,
    position: int,
    record: CacheBlockRecord,
)
    requires
        0 <= position <= before.blocks@.len(),
        before.tails@ == after.tails@,
        before.host_write_reservations@ == after.host_write_reservations@,
        after.blocks@ == before.blocks@.insert(position, record),
    ensures
        after.parts().len() == before.parts().len() + 1,
        bytes_of(after.parts()) == bytes_of(before.parts()) + record.bytes,
        tokens_of(after.parts()) == tokens_of(before.parts()) + tokens_before(record.id.end),
{
    let tails = before.tails@.len() as int;
    let part = record_part(before.host_write_reservations@, record);
    let expected = before.parts().insert(tails + position, part);
    let actual = after.parts();
    assert forall|i: int| 0 <= i < actual.len() implies (#[trigger] actual[i]).bytes
        == expected[i].bytes && actual[i].tokens == expected[i].tokens by {
        let count = before.blocks@.len();
        if tails <= i < tails + count + 1 {
            assert(actual[i] == record_part(
                after.host_write_reservations@,
                after.blocks@[i - tails],
            ));
        }
    }
    weights_agree(actual, expected);
    insertion_weighs(before.parts(), tails + position, part);
}

/// A write reservation more weighs its bytes more.
pub(crate) proof fn reservation_weight(
    before: CacheResidencyManager,
    after: CacheResidencyManager,
    reservation: HostWriteReservation,
)
    requires
        before.tails@ == after.tails@,
        after.host_write_reservations@ == before.host_write_reservations@.push(reservation),
        before.blocks@.len() == after.blocks@.len(),
        forall|i: int|
            0 <= i < before.blocks@.len() ==> (#[trigger] before.blocks@[i]).id == after.blocks@[i].id
                && before.blocks@[i].bytes == after.blocks@[i].bytes,
    ensures
        after.parts().len() == before.parts().len() + 1,
        bytes_of(after.parts()) == bytes_of(before.parts()) + reservation.bytes,
        tokens_of(after.parts()) == tokens_of(before.parts()),
{
    let expected = before.parts().insert(
        before.parts().len() as int,
        reservation_part(before.blocks@, reservation),
    );
    let actual = after.parts();
    let tails = before.tails@.len() as int;
    let blocks = before.blocks@.len() as int;
    assert forall|i: int| 0 <= i < actual.len() implies (#[trigger] actual[i]).bytes
        == expected[i].bytes && actual[i].tokens == expected[i].tokens by {
        if tails <= i < tails + blocks {
            assert(before.blocks@[i - tails].id == after.blocks@[i - tails].id);
        }
    }
    weights_agree(actual, expected);
    insertion_weighs(
        before.parts(),
        before.parts().len() as int,
        reservation_part(before.blocks@, reservation),
    );
}

/// A catalog from which tails, blocks or reservations were dropped weighs no more.
pub(crate) proof fn subset_weight(before: Seq<Part>, after: Seq<Part>)
    requires
        forall|i: int| 0 <= i < before.len() ==> modest(#[trigger] before[i]),
        after.len() <= before.len(),
        exists|pick: spec_fn(int) -> int| picks(before, after, pick),
    ensures
        bytes_of(after) <= bytes_of(before),
        tokens_of(after) <= tokens_of(before),
    decreases before.len(),
{
    let pick = choose|pick: spec_fn(int) -> int| picks(before, after, pick);
    if after.len() == 0 {
        tally_is_bounded(before, None);
    } else {
        let last = after.len() - 1;
        let rest = before.drop_last();
        assert forall|i: int| 0 <= i < rest.len() implies modest(#[trigger] rest[i]) by {
            assert(rest[i] == before[i]);
        }
        assert(0 <= pick(last) < before.len());
        if pick(last) == before.len() - 1 {
            let shorter = after.drop_last();
            assert(picks(rest, shorter, pick)) by {
                assert forall|i: int| 0 <= i < shorter.len() implies 0 <= #[trigger] pick(i)
                    < rest.len() && rest[pick(i)].bytes == shorter[i].bytes && rest[pick(i)].tokens
                    == shorter[i].tokens by {
                    assert(pick(i) < pick(last));
                    assert(shorter[i] == after[i]);
                }
                assert forall|i: int, j: int| 0 <= i < j < shorter.len() implies #[trigger] pick(i)
                    < #[trigger] pick(j) by {}
            }
            picked_is_shorter(rest, shorter, pick);
            subset_weight(rest, shorter);
            assert(before[pick(last)].bytes == after[last].bytes);
        } else {
            assert(picks(rest, after, pick)) by {
                assert forall|i: int| 0 <= i < after.len() implies 0 <= #[trigger] pick(i)
                    < rest.len() && rest[pick(i)].bytes == after[i].bytes && rest[pick(i)].tokens
                    == after[i].tokens by {
                    if i < last {
                        assert(pick(i) < pick(last));
                    }
                }
            }
            picked_is_shorter(rest, after, pick);
            subset_weight(rest, after);
            assert(modest(before[before.len() - 1]));
        }
    }
}

/// Whether `pick` finds every part of `after`, in order, among those of `before`.
pub(crate) open spec fn picks(
    before: Seq<Part>,
    after: Seq<Part>,
    pick: spec_fn(int) -> int,
) -> bool {
    &&& forall|i: int|
        0 <= i < after.len() ==> 0 <= #[trigger] pick(i) < before.len() && before[pick(i)].bytes
            == after[i].bytes && before[pick(i)].tokens == after[i].tokens
    &&& forall|i: int, j: int|
        0 <= i < j < after.len() ==> #[trigger] pick(i) < #[trigger] pick(j)
}

proof fn picked_is_shorter(before: Seq<Part>, after: Seq<Part>, pick: spec_fn(int) -> int)
    requires
        picks(before, after, pick),
    ensures
        after.len() <= before.len(),
{
    if after.len() > 0 {
        picked_from(before, after, pick, after.len() - 1);
        assert(pick(after.len() - 1) < before.len());
    }
}

proof fn picked_from(before: Seq<Part>, after: Seq<Part>, pick: spec_fn(int) -> int, i: int)
    requires
        picks(before, after, pick),
        0 <= i < after.len(),
    ensures
        pick(i) >= i,
    decreases i,
{
    if i > 0 {
        picked_from(before, after, pick, i - 1);
        assert(pick(i - 1) < pick(i));
    } else {
        assert(0 <= pick(0));
    }
}

/// What all rows of a report hold together.
pub open spec fn rows_total(rows: Seq<CacheLayerResidencyReport>) -> LayerTotals
    decreases rows.len(),
{
    if rows.len() == 0 {
        LayerTotals::zero()
    } else {
        rows_total(rows.drop_last()).plus(rows.last().stats@)
    }
}

/// Activity of a list of layers together.
spec fn listed_activity(activity: Seq<LayerActivity>, layers: Seq<usize>) -> Activity
    decreases layers.len(),
{
    if layers.len() == 0 {
        Activity::zero()
    } else {
        listed_activity(activity, layers.drop_last()).plus(activity_of(activity, layers.last()))
    }
}

/// Two disjoint lists that cover all parts account for all holdings.
proof fn split_layers_add_up(
    parts: Seq<Part>,
    recent: usize,
    left: Seq<usize>,
    right: Seq<usize>,
)
    requires
        ascending(left),
        ascending(right),
        forall|i: int| 0 <= i < parts.len() ==> modest(#[trigger] parts[i]),
        forall|i: int|
            0 <= i < parts.len() ==> (left.contains((#[trigger] parts[i]).layer)
                <==> !right.contains(parts[i].layer)),
    ensures
        summed_totals(parts, recent, left).holdings.plus(
            summed_totals(parts, recent, right).holdings,
        ) == tally(parts, None).holdings.reported(),
    decreases parts.len(),
{
    if parts.len() == 0 {
        assert(parts =~= Seq::<Part>::empty());
        no_parts_no_totals(recent, left);
        no_parts_no_totals(recent, right);
    } else {
        let rest = parts.drop_last();
        assert forall|i: int| 0 <= i < rest.len() implies modest(#[trigger] rest[i]) && (
        left.contains(rest[i].layer) <==> !right.contains(rest[i].layer)) by {
            assert(rest[i] == parts[i]);
        }
        let last = parts[parts.len() - 1];
        assert(modest(last));
        assert(left.contains(last.layer) <==> !right.contains(last.layer));
        split_layers_add_up(rest, recent, left, right);
        one_more_part(rest, last, recent, left);
        one_more_part(rest, last, recent, right);
        assert(rest.push(last) =~= parts);
    }
}

/// What one more observed layer adds to the activity of a list of layers.
proof fn one_more_observed(
    activity: Seq<LayerActivity>,
    observed: LayerActivity,
    layers: Seq<usize>,
)
    requires
        crate::cache_residency::catalog::activity_ordered(activity.push(observed)),
        ascending(layers),
    ensures
        listed_activity(activity.push(observed), layers) == if layers.contains(
            observed.global_layer,
        ) {
            listed_activity(activity, layers).plus(observed.counters@)
        } else {
            listed_activity(activity, layers)
        },
    decreases layers.len(),
{
    let after = activity.push(observed);
    if layers.len() > 0 {
        let rest = layers.drop_last();
        let last = layers.last();
        assert forall|i: int, j: int| 0 <= i < j < rest.len() implies rest[i] < rest[j] by {
            assert(rest[i] == layers[i] && rest[j] == layers[j]);
        }
        one_more_observed(activity, observed, rest);
        assert(!is_observed(activity, observed.global_layer)) by {
            if is_observed(activity, observed.global_layer) {
                let i = choose|i: int|
                    0 <= i < activity.len() && (#[trigger] activity[i]).global_layer
                        == observed.global_layer;
                assert(after[i].global_layer < after[activity.len() as int].global_layer);
            }
        }
        if last == observed.global_layer {
            activity_of_is(after, activity.len() as int);
            assert(layers[layers.len() - 1] == last);
            if rest.contains(last) {
                let i = choose|i: int| 0 <= i < rest.len() && rest[i] == last;
                assert(layers[i] < layers[layers.len() - 1]);
            }
        } else {
            if is_observed(activity, last) {
                let i = choose|i: int|
                    0 <= i < activity.len() && (#[trigger] activity[i]).global_layer == last;
                assert(after[i] == activity[i]);
                activity_of_is(after, i);
                assert(crate::cache_residency::catalog::activity_ordered(activity)) by {
                    assert forall|i: int, j: int| 0 <= i < j < activity.len() implies (
                    #[trigger] activity[i]).global_layer < (#[trigger] activity[j]).global_layer by {
                        assert(after[i] == activity[i] && after[j] == activity[j]);
                    }
                }
                activity_of_is(activity, i);
            } else {
                assert(!is_observed(after, last)) by {
                    if is_observed(after, last) {
                        let i = choose|i: int|
                            0 <= i < after.len() && (#[trigger] after[i]).global_layer == last;
                        assert(activity[i] == after[i]);
                    }
                }
            }
            if layers.contains(observed.global_layer) {
                let i = choose|i: int|
                    0 <= i < layers.len() && layers[i] == observed.global_layer;
                assert(rest[i] == observed.global_layer);
            }
            if rest.contains(observed.global_layer) {
                let i = choose|i: int| 0 <= i < rest.len() && rest[i] == observed.global_layer;
                assert(layers[i] == observed.global_layer);
            }
        }
    }
}

/// A list of layers that holds every observed one accounts for all observed activity.
proof fn listed_activity_is_complete(activity: Seq<LayerActivity>, layers: Seq<usize>)
    requires
        crate::cache_residency::catalog::activity_ordered(activity),
        ascending(layers),
        forall|i: int|
            0 <= i < activity.len() ==> layers.contains((#[trigger] activity[i]).global_layer),
    ensures
        listed_activity(activity, layers) == crate::cache_residency::catalog::observed_activity(
            activity,
        ),
    decreases activity.len(),
{
    if activity.len() == 0 {
        nothing_observed(activity, layers);
    } else {
        let rest = activity.drop_last();
        let last = activity[activity.len() - 1];
        assert forall|i: int| 0 <= i < rest.len() implies layers.contains(
            (#[trigger] rest[i]).global_layer,
        ) by {
            assert(rest[i] == activity[i]);
        }
        assert forall|i: int, j: int| 0 <= i < j < rest.len() implies (
        #[trigger] rest[i]).global_layer < (#[trigger] rest[j]).global_layer by {
            assert(rest[i] == activity[i] && rest[j] == activity[j]);
        }
        assert(rest.push(last) =~= activity);
        listed_activity_is_complete(rest, layers);
        one_more_observed(rest, last, layers);
        assert(layers.contains(last.global_layer));
    }
}

proof fn nothing_observed(activity: Seq<LayerActivity>, layers: Seq<usize>)
    requires
        activity.len() == 0,
    ensures
        listed_activity(activity, layers) == Activity::zero(),
    decreases layers.len(),
{
    if layers.len() > 0 {
        nothing_observed(activity, layers.drop_last());
    }
}

/// Rows that hold their layers' totals add up to the totals of their layers.
proof fn rows_total_is(
    rows: Seq<CacheLayerResidencyReport>,
    parts: Seq<Part>,
    recent: usize,
    activity: Seq<LayerActivity>,
)
    requires
        forall|i: int|
            0 <= i < rows.len() ==> (#[trigger] rows[i]).stats@ == (LayerTotals {
                activity: activity_of(activity, rows[i].global_layer),
                ..current_totals(parts, recent, rows[i].global_layer)
            }),
    ensures
        rows_total(rows) == (LayerTotals {
            activity: listed_activity(activity, row_layers(rows)),
            ..summed_totals(parts, recent, row_layers(rows))
        }),
    decreases rows.len(),
{
    let layers = row_layers(rows);
    if rows.len() > 0 {
        let rest = rows.drop_last();
        assert forall|i: int| 0 <= i < rest.len() implies (#[trigger] rest[i]).stats@ == (
        LayerTotals {
            activity: activity_of(activity, rest[i].global_layer),
            ..current_totals(parts, recent, rest[i].global_layer)
        }) by {
            assert(rest[i] == rows[i]);
        }
        rows_total_is(rest, parts, recent, activity);
        assert(row_layers(rest) =~= layers.drop_last());
        let last = rows[rows.len() - 1];
        assert(layers.last() == last.global_layer);
    }
}

/// Peaks never fall, and those of the device and the host stay within their budgets.
pub proof fn peaks_stay_within_budgets(manager: CacheResidencyManager, base: CacheResidencyReport)
    requires
        manager.reports(base),
        base.peak_device_bytes <= manager.options@.device_budget_bytes,
        base.peak_host_bytes <= manager.options@.host_budget_bytes,
    ensures
        base.peak_device_bytes <= manager.report.peak_device_bytes
            <= manager.options@.device_budget_bytes,
        base.peak_host_bytes <= manager.report.peak_host_bytes
            <= manager.options@.host_budget_bytes,
        base.peak_disk_bytes <= manager.report.peak_disk_bytes,
        base.peak_in_flight_write_bytes <= manager.report.peak_in_flight_write_bytes,
{
}

/// A report never has more rows than its limit, whatever layers the cache serves.
pub proof fn report_rows_are_bounded(manager: CacheResidencyManager, base: CacheResidencyReport)
    requires
        manager.wf(),
        manager.reports(base),
    ensures
        manager.report.per_layer@.len() <= CACHE_RESIDENCY_LAYER_REPORT_LIMIT,
{
}

/// The rows and the overflow of a report hold, together, exactly the blocks, bytes,
/// protected blocks and activity of the report's totals: no layer is lost or counted
/// twice.
pub proof fn report_is_lossless(manager: CacheResidencyManager, base: CacheResidencyReport)
    requires
        manager.wf(),
        manager.reports(base),
    ensures
        ({
            let together = rows_total(manager.report.per_layer@).plus(
                manager.report.per_layer_overflow@,
            );
            &&& together.holdings == manager.report.holdings()
            &&& together.protected_recent_blocks == manager.report.protected_recent_blocks
            &&& together.activity == manager.report.activity()
        }),
{
    let parts = manager.parts();
    let layers = active_layers(parts);
    let activity = manager.layer_activity@;
    let recent = manager.options@.recent_device_blocks;
    let fresh = fresh_layers(layers, activity);
    let shown = fresh_rows(layers, activity);
    let rows = manager.report.per_layer@;
    let hidden = fresh.skip(shown);
    let listed = row_layers(rows);
    parts_are_modest(manager);
    assert forall|i: int, j: int| 0 <= i < j < listed.len() implies listed[i] < listed[j] by {
        assert(rows[i].global_layer < rows[j].global_layer);
    }
    fresh_layers_are_ascending(layers, activity);
    assert forall|i: int, j: int| 0 <= i < j < hidden.len() implies hidden[i] < hidden[j] by {
        assert(fresh[i + shown] < fresh[j + shown]);
    }
    assert forall|i: int| 0 <= i < parts.len() implies (listed.contains((#[trigger] parts[i]).layer)
        <==> !hidden.contains(parts[i].layer)) by {
        let layer = parts[i].layer;
        assert(layers.contains(layer));
        fresh_layers_are(layers, activity, layer);
        if hidden.contains(layer) {
            let k = choose|k: int| 0 <= k < hidden.len() && hidden[k] == layer;
            assert(fresh[k + shown] == layer);
            assert(fresh.contains(layer));
            if listed.contains(layer) {
                let m = choose|m: int| 0 <= m < listed.len() && listed[m] == layer;
                assert(rows[m].global_layer == layer);
                assert(fresh.take(shown).contains(layer));
                let n = choose|n: int| 0 <= n < shown && fresh.take(shown)[n] == layer;
                assert(fresh[n] < fresh[k + shown]);
            }
        } else {
            if is_observed(activity, layer) {
                let m = choose|m: int|
                    0 <= m < activity.len() && (#[trigger] activity[m]).global_layer == layer;
                assert(has_row(rows, activity[m].global_layer));
            } else {
                let n = choose|n: int| 0 <= n < fresh.len() && fresh[n] == layer;
                if n >= shown {
                    assert(hidden[n - shown] == layer);
                }
                assert(has_row(rows, fresh[n]));
            }
            let m = choose|m: int|
                0 <= m < rows.len() && (#[trigger] rows[m]).global_layer == layer;
            assert(listed[m] == layer);
        }
    }
    split_layers_add_up(parts, recent, listed, hidden);
    assert forall|i: int| 0 <= i < hidden.len() implies layers.contains(#[trigger] hidden[i]) by {
        assert(hidden[i] == fresh[i + shown]);
        assert(fresh.contains(fresh[i + shown]));
        fresh_layers_are_active(layers, activity, fresh[i + shown]);
    }
    split_protection_adds_up(parts, recent, layers, listed, hidden);
    assert forall|i: int| 0 <= i < activity.len() implies listed.contains(
        (#[trigger] activity[i]).global_layer,
    ) by {
        assert(has_row(rows, activity[i].global_layer));
        let m = choose|m: int|
            0 <= m < rows.len() && (#[trigger] rows[m]).global_layer == activity[i].global_layer;
        assert(listed[m] == activity[i].global_layer);
    }
    listed_activity_is_complete(activity, listed);
    rows_total_is(rows, parts, recent, activity);
}

/// Fresh layers are among the active ones.
proof fn fresh_layers_are_active(layers: Seq<usize>, activity: Seq<LayerActivity>, layer: usize)
    requires
        fresh_layers(layers, activity).contains(layer),
    ensures
        layers.contains(layer),
{
    let keep = |layer: usize| !is_observed(activity, layer);
    layers.lemma_filter_contains_rev(keep, layer);
}

/// The protected blocks of a list of layers are those of the layers that a test keeps and
/// those of the layers that it does not.
proof fn protection_splits(
    parts: Seq<Part>,
    recent: usize,
    layers: Seq<usize>,
    keep: spec_fn(usize) -> bool,
    drop: spec_fn(usize) -> bool,
)
    requires
        forall|layer: usize| keep(layer) <==> !#[trigger] drop(layer),
    ensures
        summed_totals(parts, recent, layers).protected_recent_blocks == summed_totals(
            parts,
            recent,
            layers.filter(keep),
        ).protected_recent_blocks + summed_totals(
            parts,
            recent,
            layers.filter(drop),
        ).protected_recent_blocks,
    decreases layers.len(),
{
    reveal(Seq::filter);
    if layers.len() > 0 {
        let rest = layers.drop_last();
        let last = layers.last();
        protection_splits(parts, recent, rest, keep, drop);
        if drop(last) {
            assert(layers.filter(drop) == rest.filter(drop).push(last));
            assert(layers.filter(drop).drop_last() =~= rest.filter(drop));
            assert(layers.filter(keep) == rest.filter(keep));
        } else {
            assert(layers.filter(keep) == rest.filter(keep).push(last));
            assert(layers.filter(keep).drop_last() =~= rest.filter(keep));
            assert(layers.filter(drop) == rest.filter(drop));
        }
    }
}

/// A filtered list keeps the ascending order.
proof fn filter_is_ascending(layers: Seq<usize>, keep: spec_fn(usize) -> bool)
    requires
        ascending(layers),
    ensures
        ascending(layers.filter(keep)),
        forall|i: int|
            0 <= i < layers.filter(keep).len() ==> layers.len() > 0 && (#[trigger] layers.filter(
                keep,
            )[i]) <= layers.last(),
        forall|layer: usize|
            layers.filter(keep).contains(layer) <==> layers.contains(layer) && keep(layer),
    decreases layers.len(),
{
    broadcast use vstd::seq_lib::group_filter_ensures;

    assert forall|layer: usize|
        layers.filter(keep).contains(layer) <==> layers.contains(layer) && keep(layer) by {
        if layers.contains(layer) && keep(layer) {
            let i = choose|i: int| 0 <= i < layers.len() && layers[i] == layer;
            assert(layers.filter(keep).contains(layers[i]));
        }
        if layers.filter(keep).contains(layer) {
            let i = choose|i: int|
                0 <= i < layers.filter(keep).len() && layers.filter(keep)[i] == layer;
            assert(keep(layers.filter(keep)[i]));
            layers.lemma_filter_contains_rev(keep, layer);
        }
    }
    reveal(Seq::filter);
    if layers.len() > 0 {
        let rest = layers.drop_last();
        assert forall|i: int, j: int| 0 <= i < j < rest.len() implies rest[i] < rest[j] by {
            assert(rest[i] == layers[i] && rest[j] == layers[j]);
        }
        filter_is_ascending(rest, keep);
        let earlier = rest.filter(keep);
        assert forall|i: int| 0 <= i < earlier.len() implies (#[trigger] earlier[i])
            < layers.last() by {
            assert(earlier[i] <= rest.last());
            assert(rest.last() == layers[layers.len() - 2]);
        }
        if keep(layers.last()) {
            assert(layers.filter(keep) == earlier.push(layers.last()));
        } else {
            assert(layers.filter(keep) == earlier);
        }
    }
}

/// Layers without parts protect nothing.
proof fn idle_layers_protect_nothing(parts: Seq<Part>, recent: usize, layers: Seq<usize>)
    requires
        forall|i: int| 0 <= i < parts.len() ==> !layers.contains((#[trigger] parts[i]).layer),
    ensures
        summed_totals(parts, recent, layers).protected_recent_blocks == 0,
    decreases layers.len(),
{
    if layers.len() > 0 {
        let rest = layers.drop_last();
        let last = layers.last();
        assert forall|i: int| 0 <= i < parts.len() implies !rest.contains(
            (#[trigger] parts[i]).layer,
        ) && parts[i].layer != last by {
            assert(layers[layers.len() - 1] == last);
            if rest.contains(parts[i].layer) {
                let j = choose|j: int| 0 <= j < rest.len() && rest[j] == parts[i].layer;
                assert(layers[j] == parts[i].layer);
            }
        }
        idle_layers_protect_nothing(parts, recent, rest);
        idle_layer_has_no_candidates(parts, last);
    }
}

proof fn idle_layer_has_no_candidates(parts: Seq<Part>, layer: usize)
    requires
        forall|i: int| 0 <= i < parts.len() ==> (#[trigger] parts[i]).layer != layer,
    ensures
        tally(parts, Some(layer)).holdings.recent_candidates == 0,
    decreases parts.len(),
{
    if parts.len() > 0 {
        let rest = parts.drop_last();
        assert forall|i: int| 0 <= i < rest.len() implies (#[trigger] rest[i]).layer != layer by {
            assert(rest[i] == parts[i]);
        }
        assert(parts[parts.len() - 1].layer != layer);
        idle_layer_has_no_candidates(rest, layer);
    }
}

/// Where every active layer is in exactly one of two lists, and the second has no others,
/// the lists together protect the blocks that the active layers do.
proof fn split_protection_adds_up(
    parts: Seq<Part>,
    recent: usize,
    layers: Seq<usize>,
    left: Seq<usize>,
    right: Seq<usize>,
)
    requires
        lists_layers(layers, parts),
        ascending(left),
        ascending(right),
        forall|i: int|
            0 <= i < parts.len() ==> (left.contains((#[trigger] parts[i]).layer)
                <==> !right.contains(parts[i].layer)),
        forall|i: int| 0 <= i < right.len() ==> layers.contains(#[trigger] right[i]),
    ensures
        summed_totals(parts, recent, left).protected_recent_blocks + summed_totals(
            parts,
            recent,
            right,
        ).protected_recent_blocks == summed_totals(
            parts,
            recent,
            layers,
        ).protected_recent_blocks,
{
    let in_right = |layer: usize| right.contains(layer);
    let not_right = |layer: usize| !right.contains(layer);
    let active = |layer: usize| layers.contains(layer);
    let idle = |layer: usize| !layers.contains(layer);
    protection_splits(parts, recent, layers, in_right, not_right);
    protection_splits(parts, recent, left, active, idle);
    filter_is_ascending(layers, in_right);
    filter_is_ascending(layers, not_right);
    filter_is_ascending(left, active);
    filter_is_ascending(left, idle);
    assert forall|layer: usize| layers.filter(in_right).contains(layer) <==> right.contains(layer) by {
        if right.contains(layer) {
            let i = choose|i: int| 0 <= i < right.len() && right[i] == layer;
            assert(layers.contains(right[i]));
        }
    }
    ascending_lists_agree(layers.filter(in_right), right);
    assert forall|layer: usize| layers.filter(not_right).contains(layer) <==> left.filter(
        active,
    ).contains(layer) by {
        if layers.contains(layer) {
            let i = choose|i: int| 0 <= i < layers.len() && layers[i] == layer;
            let j = choose|j: int| 0 <= j < parts.len() && (#[trigger] parts[j]).layer == layers[i];
            assert(left.contains(parts[j].layer) <==> !right.contains(parts[j].layer));
        }
    }
    ascending_lists_agree(layers.filter(not_right), left.filter(active));
    assert forall|i: int| 0 <= i < parts.len() implies !left.filter(idle).contains(
        (#[trigger] parts[i]).layer,
    ) by {
        assert(layers.contains(parts[i].layer));
    }
    idle_layers_protect_nothing(parts, recent, left.filter(idle));
}

/// Fresh layers are the active ones without an activity row.
proof fn fresh_layers_are(layers: Seq<usize>, activity: Seq<LayerActivity>, layer: usize)
    requires
        layers.contains(layer),
    ensures
        fresh_layers(layers, activity).contains(layer) <==> !is_observed(activity, layer),
{
    let keep = |layer: usize| !is_observed(activity, layer);
    broadcast use vstd::seq_lib::group_filter_ensures;

    let i = choose|i: int| 0 <= i < layers.len() && layers[i] == layer;
    if keep(layers[i]) {
        assert(layers.filter(keep).contains(layers[i]));
    }
    if layers.filter(keep).contains(layer) {
        let j = choose|j: int|
            0 <= j < layers.filter(keep).len() && layers.filter(keep)[j] == layer;
        assert(keep(layers.filter(keep)[j]));
    }
}

/// Fresh layers keep the ascending order.
proof fn fresh_layers_are_ascending(layers: Seq<usize>, activity: Seq<LayerActivity>)
    requires
        ascending(layers),
    ensures
        ascending(fresh_layers(layers, activity)),
        forall|i: int|
            0 <= i < fresh_layers(layers, activity).len() ==> layers.len() > 0 && (
            #[trigger] fresh_layers(layers, activity)[i]) <= layers.last(),
    decreases layers.len(),
{
    reveal(Seq::filter);
    let keep = |layer: usize| !is_observed(activity, layer);
    if layers.len() > 0 {
        let rest = layers.drop_last();
        assert forall|i: int, j: int| 0 <= i < j < rest.len() implies rest[i] < rest[j] by {
            assert(rest[i] == layers[i] && rest[j] == layers[j]);
        }
        fresh_layers_are_ascending(rest, activity);
        let fresh = fresh_layers(layers, activity);
        let earlier = fresh_layers(rest, activity);
        assert forall|i: int| 0 <= i < earlier.len() implies (#[trigger] earlier[i])
            < layers.last() by {
            assert(earlier[i] <= rest.last());
            assert(rest.last() == layers[layers.len() - 2]);
        }
        if keep(layers.last()) {
            assert(fresh == earlier.push(layers.last()));
        } else {
            assert(fresh == earlier);
        }
    }
}

/// The sum of current totals carries no activity.
proof fn summed_activity_is_zero(parts: Seq<Part>, recent: usize, layers: Seq<usize>)
    ensures
        summed_totals(parts, recent, layers).activity == Activity::zero(),
    decreases layers.len(),
{
    if layers.len() > 0 {
        summed_activity_is_zero(parts, recent, layers.drop_last());
    }
}

} // verus!
