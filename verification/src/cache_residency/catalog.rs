//! The catalog of sealed blocks, tails and write reservations of one live cache.

use vstd::prelude::*;

use crate::cache_residency::block::{CacheBlockArrays, CacheBlockId, CacheTier};
use crate::cache_residency::options::PagedCacheOptions;
use crate::cache_residency::stats::{
    CacheLayerActivityCounters, CacheResidencyReport,
};
use crate::cache_residency::worker::{DiskOperationKind, DiskTicket, DiskWorker};

verus! {

/// Where the arrays of a block are stored on disk.
#[derive(Debug, Clone, PartialEq, Eq)]
pub struct DiskLocation {
    /// Shard file.
    pub path: String,
    /// Name of the first array.
    pub first_name: String,
    /// Name of the second array.
    pub second_name: String,
    /// Whether the shard belongs to a prompt cache and outlives the live cache.
    pub persistent: bool,
    /// Whether the shard is mapped into memory.
    pub mapped: bool,
    /// Expected digest of the shard payload.
    pub payload_sha256: Option<String>,
}

/// Catalog entry of one sealed block.
#[derive(Debug, Clone)]
pub struct CacheBlockRecord {
    /// Identity of the block.
    pub id: CacheBlockId,
    /// Tier that holds the block.
    pub tier: CacheTier,
    /// Resident arrays, on the device or on the host.
    pub arrays: Option<CacheBlockArrays>,
    /// Disk copy, when one exists.
    pub disk: Option<DiskLocation>,
    /// Logical bytes of both arrays.
    pub bytes: u64,
    /// Shape of the first array.
    pub first_shape: Vec<i32>,
    /// Shape of the second array.
    pub second_shape: Vec<i32>,
    /// Element type of the first array.
    pub first_dtype: String,
    /// Element type of the second array.
    pub second_dtype: String,
    /// Whether the block came from a prompt cache.
    pub imported: bool,
    /// Active attention leases.
    pub leases: usize,
    /// Demand accesses.
    pub access_count: u64,
    /// Clock value of the last access.
    pub last_access: u64,
    /// Whether the block is a protected prefix.
    pub protected_prefix: bool,
    /// Disk operation that is in flight for the block.
    pub pending_disk: Option<DiskTicket>,
}

impl CacheBlockRecord {
    /// Whether a background write of this block is in flight.
    pub open spec fn writing(self) -> bool {
        self.pending_disk matches Some(ticket) && ticket.key.kind == DiskOperationKind::Write
    }

    /// Resident blocks have their arrays; disk blocks have none and have a location.
    pub open spec fn placed(self) -> bool {
        if self.tier == CacheTier::Disk {
            self.arrays is None && self.disk is Some
        } else {
            self.arrays is Some
        }
    }
}

/// Mutable append target of one layer.
#[derive(Debug, Clone, Copy, PartialEq, Eq, Structural)]
pub struct CacheTail {
    /// Global layer that owns the tail.
    pub global_layer: usize,
    /// Device bytes of the tail.
    pub bytes: u64,
    /// Exclusive absolute token position.
    pub end: i64,
}

/// Host bytes owned by a background write until its task drops them.
#[derive(Debug, Clone, Copy, PartialEq, Eq, Structural)]
pub struct HostWriteReservation {
    /// Identity of the reservation.
    pub reservation_id: u64,
    /// Layer of the written block.
    pub global_layer: usize,
    /// Reserved bytes.
    pub bytes: u64,
    /// The write.
    pub ticket: DiskTicket,
}

/// Cumulative activity of one individually observed layer.
#[derive(Debug, Clone, Copy, PartialEq, Eq)]
pub struct LayerActivity {
    /// Observed layer.
    pub global_layer: usize,
    /// Its activity.
    pub counters: CacheLayerActivityCounters,
}

/// Architecture-independent manager enforcing budgets across all layers.
#[derive(Debug)]
pub struct CacheResidencyManager {
    /// Live cache identity included in every block id.
    pub session_id: u64,
    /// Validated limits.
    pub options: PagedCacheOptions,
    /// Current generation; a new one invalidates in-flight operations.
    pub generation: u64,
    /// Failure of a background write that nobody has been told of yet.
    pub background_disk_error: Option<String>,
    /// Clock of demand accesses.
    pub access_clock: u64,
    /// Sealed blocks in identity order.
    pub blocks: Vec<CacheBlockRecord>,
    /// Mutable tails in layer order.
    pub tails: Vec<CacheTail>,
    /// Host bytes owned by background writes.
    pub host_write_reservations: Vec<HostWriteReservation>,
    /// Identity of the next reservation.
    pub next_reservation_id: u64,
    /// Activity of individually observed layers, in layer order.
    pub layer_activity: Vec<LayerActivity>,
    /// Activity of every other layer.
    pub layer_activity_overflow: CacheLayerActivityCounters,
    /// Latest report.
    pub report: CacheResidencyReport,
    /// Background disk operations.
    pub worker: DiskWorker,
}

/// Blocks are in strict identity order, so no identity occurs twice.
pub open spec fn blocks_ordered(blocks: Seq<CacheBlockRecord>) -> bool {
    forall|i: int, j: int|
        0 <= i < j < blocks.len() ==> crate::cache_residency::block::id_before(
            (#[trigger] blocks[i]).id,
            (#[trigger] blocks[j]).id,
        )
}

/// Tails are in strict layer order, so no layer has two.
pub open spec fn tails_ordered(tails: Seq<CacheTail>) -> bool {
    forall|i: int, j: int|
        0 <= i < j < tails.len() ==> (#[trigger] tails[i]).global_layer < (
        #[trigger] tails[j]).global_layer
}

/// Observed layers are in strict layer order, so none occurs twice.
pub open spec fn activity_ordered(activity: Seq<LayerActivity>) -> bool {
    forall|i: int, j: int|
        0 <= i < j < activity.len() ==> (#[trigger] activity[i]).global_layer < (
        #[trigger] activity[j]).global_layer
}

/// No write has two reservations.
pub open spec fn reservations_distinct(reservations: Seq<HostWriteReservation>) -> bool {
    forall|i: int, j: int|
        0 <= i < j < reservations.len() ==> (#[trigger] reservations[i]).ticket.key != (
        #[trigger] reservations[j]).ticket.key
}

/// Activity of all individually observed layers together.
pub open spec fn observed_activity(
    activity: Seq<LayerActivity>,
) -> crate::cache_residency::stats::Activity
    decreases activity.len(),
{
    if activity.len() == 0 {
        crate::cache_residency::stats::Activity::zero()
    } else {
        observed_activity(activity.drop_last()).plus(activity.last().counters@)
    }
}

impl CacheResidencyManager {
    /// Consistency of the catalog.
    pub open spec fn wf(self) -> bool {
        &&& self.options@.valid()
        &&& self.worker.wf()
        &&& blocks_ordered(self.blocks@)
        &&& tails_ordered(self.tails@)
        &&& activity_ordered(self.layer_activity@)
        &&& self.layer_activity@.len()
            <= crate::cache_residency::stats::CACHE_RESIDENCY_LAYER_REPORT_LIMIT
        &&& reservations_distinct(self.host_write_reservations@)
        &&& forall|i: int| 0 <= i < self.blocks@.len() ==> (#[trigger] self.blocks@[i]).placed()
        &&& forall|i: int|
            0 <= i < self.blocks@.len() ==> ((#[trigger] self.blocks@[i]).pending_disk matches Some(
                ticket,
            ) ==> self.worker.knows(ticket))
        &&& forall|i: int|
            0 <= i < self.host_write_reservations@.len() ==> self.worker.knows(
                (#[trigger] self.host_write_reservations@[i]).ticket,
            )
        &&& self.activity_is_lossless()
    }

    /// Every counted activity is attributed to a layer row or to the overflow: the
    /// report's totals are exactly what the rows and the overflow hold together.
    pub open spec fn activity_is_lossless(self) -> bool {
        self.report.activity() == observed_activity(self.layer_activity@).plus(
            self.layer_activity_overflow@,
        )
    }

    /// Whether a block is cataloged.
    pub open spec fn has_block(self, id: CacheBlockId) -> bool {
        exists|i: int| 0 <= i < self.blocks@.len() && (#[trigger] self.blocks@[i]).id == id
    }

    /// Position of a cataloged block.
    pub open spec fn block_index(self, id: CacheBlockId) -> int {
        choose|i: int| 0 <= i < self.blocks@.len() && (#[trigger] self.blocks@[i]).id == id
    }

    /// The record of a cataloged block.
    pub open spec fn block(self, id: CacheBlockId) -> CacheBlockRecord {
        self.blocks@[self.block_index(id)]
    }
}

/// In an ordered catalog an identity determines the position of its record.
pub proof fn block_position_is_unique(blocks: Seq<CacheBlockRecord>, i: int, j: int)
    requires
        blocks_ordered(blocks),
        0 <= i < blocks.len(),
        0 <= j < blocks.len(),
        blocks[i].id == blocks[j].id,
    ensures
        i == j,
{
    if i < j {
        assert(crate::cache_residency::block::id_before(blocks[i].id, blocks[j].id));
    }
    if j < i {
        assert(crate::cache_residency::block::id_before(blocks[j].id, blocks[i].id));
    }
}

impl CacheResidencyManager {
    /// A cataloged block is found at its position.
    pub proof fn block_index_is(self, i: int)
        requires
            blocks_ordered(self.blocks@),
            0 <= i < self.blocks@.len(),
        ensures
            self.has_block(self.blocks@[i].id),
            self.block_index(self.blocks@[i].id) == i,
            self.block(self.blocks@[i].id) == self.blocks@[i],
    {
        let id = self.blocks@[i].id;
        let found = self.block_index(id);
        assert(0 <= found < self.blocks@.len() && self.blocks@[found].id == id);
        block_position_is_unique(self.blocks@, found, i);
    }

    /// Finds a block's record.
    pub fn find_block(&self, id: &CacheBlockId) -> (position: Option<usize>)
        requires
            blocks_ordered(self.blocks@),
        ensures
            match position {
                Some(i) => {
                    &&& i < self.blocks@.len()
                    &&& self.blocks@[i as int].id == *id
                    &&& self.has_block(*id)
                    &&& self.block_index(*id) == i
                    &&& self.block(*id) == self.blocks@[i as int]
                },
                None => !self.has_block(*id),
            },
    {
        let mut low: usize = 0;
        let mut high: usize = self.blocks.len();
        while low < high
            invariant
                low <= high <= self.blocks@.len(),
                blocks_ordered(self.blocks@),
                forall|i: int|
                    0 <= i < low ==> crate::cache_residency::block::id_before(
                        (#[trigger] self.blocks@[i]).id,
                        *id,
                    ),
                forall|i: int|
                    high <= i < self.blocks@.len() ==> crate::cache_residency::block::id_before(
                        *id,
                        (#[trigger] self.blocks@[i]).id,
                    ),
            decreases high - low,
        {
            let middle: usize = low + (high - low) / 2;
            let candidate = self.blocks[middle].id;
            if candidate == *id {
                proof {
                    self.block_index_is(middle as int);
                }
                return Some(middle);
            }
            if candidate.precedes(id) {
                proof {
                    assert forall|i: int| 0 <= i < middle + 1 implies crate::cache_residency::block::id_before(
                        (#[trigger] self.blocks@[i]).id,
                        *id,
                    ) by {
                        if i < middle {
                            crate::cache_residency::block::id_order_is_transitive(
                                self.blocks@[i].id,
                                candidate,
                                *id,
                            );
                        }
                    }
                }
                low = middle + 1;
            } else {
                proof {
                    crate::cache_residency::block::id_order_is_total(candidate, *id);
                    assert forall|i: int|
                        middle <= i
                            < self.blocks@.len() implies crate::cache_residency::block::id_before(
                        *id,
                        (#[trigger] self.blocks@[i]).id,
                    ) by {
                        if i > middle {
                            crate::cache_residency::block::id_order_is_transitive(
                                *id,
                                candidate,
                                self.blocks@[i].id,
                            );
                        }
                    }
                }
                high = middle;
            }
        }
        proof {
            if self.has_block(*id) {
                let i = self.block_index(*id);
                assert(self.blocks@[i].id == *id);
                crate::cache_residency::block::id_order_is_total(*id, *id);
            }
        }
        None
    }

    /// Position at which a block that is not cataloged belongs.
    pub fn insertion_point(&self, id: &CacheBlockId) -> (position: usize)
        requires
            blocks_ordered(self.blocks@),
            !self.has_block(*id),
        ensures
            position <= self.blocks@.len(),
            forall|i: int|
                0 <= i < position ==> crate::cache_residency::block::id_before(
                    (#[trigger] self.blocks@[i]).id,
                    *id,
                ),
            forall|i: int|
                position <= i < self.blocks@.len() ==> crate::cache_residency::block::id_before(
                    *id,
                    (#[trigger] self.blocks@[i]).id,
                ),
    {
        let mut index: usize = 0;
        while index < self.blocks.len() && self.blocks[index].id.precedes(id)
            invariant
                index <= self.blocks@.len(),
                forall|i: int|
                    0 <= i < index ==> crate::cache_residency::block::id_before(
                        (#[trigger] self.blocks@[i]).id,
                        *id,
                    ),
            decreases self.blocks@.len() - index,
        {
            index = index + 1;
        }
        proof {
            if index < self.blocks@.len() {
                let at = self.blocks@[index as int].id;
                crate::cache_residency::block::id_order_is_total(at, *id);
                assert(at != *id);
                assert forall|i: int|
                    index <= i
                        < self.blocks@.len() implies crate::cache_residency::block::id_before(
                    *id,
                    (#[trigger] self.blocks@[i]).id,
                ) by {
                    if i > index {
                        crate::cache_residency::block::id_order_is_transitive(
                            *id,
                            at,
                            self.blocks@[i].id,
                        );
                    }
                }
            }
        }
        index
    }
}

/// An ordered catalog stays ordered when a record is inserted at its place.
pub proof fn insertion_keeps_order(
    blocks: Seq<CacheBlockRecord>,
    position: int,
    record: CacheBlockRecord,
)
    requires
        blocks_ordered(blocks),
        0 <= position <= blocks.len(),
        forall|i: int|
            0 <= i < position ==> crate::cache_residency::block::id_before(
                (#[trigger] blocks[i]).id,
                record.id,
            ),
        forall|i: int|
            position <= i < blocks.len() ==> crate::cache_residency::block::id_before(
                record.id,
                (#[trigger] blocks[i]).id,
            ),
    ensures
        blocks_ordered(blocks.insert(position, record)),
{
    let after = blocks.insert(position, record);
    assert forall|i: int, j: int| 0 <= i < j < after.len() implies crate::cache_residency::block::id_before(
        (#[trigger] after[i]).id,
        (#[trigger] after[j]).id,
    ) by {
        let left = if i < position {
            i
        } else {
            i - 1
        };
        let right = if j < position {
            j
        } else {
            j - 1
        };
        if i == position {
            assert(after[j] == blocks[right]);
        } else if j == position {
            assert(after[i] == blocks[left]);
        } else {
            assert(after[i] == blocks[left]);
            assert(after[j] == blocks[right]);
        }
    }
}

} // verus!
