//! Enforcement of the tier budgets: demotion of blocks and background writes.
//!
//! Rebalancing is taken in steps. Each call of
//! [`CacheResidencyManager::rebalance_step`] makes one decision and carries out what
//! the catalog alone can; copies and waits are left to the caller, who reports back and
//! steps again until the catalog is settled or a budget cannot be met.

use vstd::prelude::*;

use crate::cache_residency::block::{CacheBlockArrays, CacheBlockId, CacheTier};
use crate::cache_residency::catalog::{
    CacheBlockRecord, CacheResidencyManager, DiskLocation, HostWriteReservation,
};
use crate::cache_residency::error::{CacheFailure, CacheResidencyError};
use crate::cache_residency::lease::{DiskReply, DiskSubmissionOutcome};
use crate::cache_residency::report::Part;
use crate::cache_residency::stats::{
    Activity, CacheLayerActivityCounters, CacheResidencyReport,
};
use crate::cache_residency::worker::{DiskOperationKey, DiskOperationKind, DiskTicket};

verus! {

/// What one demotion from the host asks of the caller.
#[derive(Debug, Clone, Copy, PartialEq, Eq, Structural)]
pub enum HostDemotionProgress {
    /// The block is no longer idle on the host.
    Retry,
    /// The block's disk copy took over at once.
    Freed,
    /// A background write is pending.
    Pending {
        /// The write.
        ticket: DiskTicket,
        /// Whether the write is to be handed to the worker first.
        send: bool,
    },
}

/// What a rebalancing step asks of the caller.
#[derive(Debug, Clone, Copy, PartialEq, Eq, Structural)]
pub enum RebalanceStep {
    /// A block changed its tier; step again.
    Continue,
    /// Copy a block's arrays to the host and report them.
    CopyToHost {
        /// Block to copy.
        id: CacheBlockId,
    },
    /// A background write is pending.
    Write {
        /// The write.
        ticket: DiskTicket,
        /// Whether the write is to be handed to the worker first.
        send: bool,
        /// Whether to wait for the write and step again; otherwise the catalog is settled.
        wait: bool,
    },
    /// Wait for a write in flight and step again.
    AwaitWrite {
        /// The write.
        ticket: DiskTicket,
    },
    /// Every budget is met.
    Done,
}

/// What a rebalancing step decides.
pub enum RebalanceDecision {
    /// Report the failure of a background write.
    Background(Seq<char>),
    /// Report that a budget cannot be met, and count the failure for the layer.
    Refuse(CacheFailure, Option<usize>),
    /// Let a device block fall back to its disk copy.
    DropToDisk(CacheBlockId),
    /// Copy a device block to the host.
    Copy(CacheBlockId),
    /// Demote a host block, and wait for it or not.
    Demote(CacheBlockId, bool),
    /// Wait for a write in flight.
    Await(DiskTicket),
    /// Nothing is left to do.
    Settled,
}

/// What demoting a host block decides.
pub enum DemotionDecision {
    /// The block is not idle on the host.
    Retry,
    /// The block has a disk copy.
    Free,
    /// The block cannot be written.
    Refuse(CacheFailure),
    /// The block is written in the background.
    Write,
}

/// What came of a background write.
#[derive(Debug)]
pub enum DiskWriteResult {
    /// The block was written.
    Written(DiskLocation),
    /// The worker answered with something else.
    Unexpected,
    /// The write failed with this message.
    Failed(String),
}

/// The lesser of a sum and the largest machine integer.
pub open spec fn saturated(sum: int) -> u64 {
    if sum > u64::MAX {
        u64::MAX
    } else {
        sum as u64
    }
}

/// Bytes of blocks whose live shard is on disk.
pub open spec fn live_disk_bytes(blocks: Seq<CacheBlockRecord>) -> int
    decreases blocks.len(),
{
    if blocks.len() == 0 {
        0
    } else {
        live_disk_bytes(blocks.drop_last()) + if blocks.last().disk matches Some(location)
            && !location.persistent {
            blocks.last().bytes as int
        } else {
            0
        }
    }
}

/// Bytes reserved by background writes.
pub open spec fn reserved_bytes(reservations: Seq<HostWriteReservation>) -> int
    decreases reservations.len(),
{
    if reservations.len() == 0 {
        0
    } else {
        reserved_bytes(reservations.drop_last()) + reservations.last().bytes
    }
}

/// The first write in flight among blocks.
pub open spec fn first_writing(blocks: Seq<CacheBlockRecord>) -> Option<DiskTicket>
    decreases blocks.len(),
{
    if blocks.len() == 0 {
        None
    } else if blocks[0].writing() {
        blocks[0].pending_disk
    } else {
        first_writing(blocks.drop_first())
    }
}

/// Position of a write's reservation.
pub open spec fn reservation_index(
    reservations: Seq<HostWriteReservation>,
    key: DiskOperationKey,
) -> int {
    choose|i: int| 0 <= i < reservations.len() && (#[trigger] reservations[i]).ticket.key == key
}

/// The reservations without that of one write.
pub open spec fn without_reservation(
    reservations: Seq<HostWriteReservation>,
    key: DiskOperationKey,
) -> Seq<HostWriteReservation> {
    if crate::cache_residency::report::reserved(reservations, key) {
        reservations.remove(reservation_index(reservations, key))
    } else {
        reservations
    }
}

/// Activity of one demotion to disk.
pub open spec fn disk_demotion_activity() -> Activity {
    Activity { disk_demotions: 1, ..Activity::zero() }
}

/// Activity of one demotion to the host.
pub open spec fn host_demotion_activity(bytes: u64) -> Activity {
    Activity { host_demotions: 1, transfer_bytes: bytes as int, ..Activity::zero() }
}

/// A block that left its resident tier for its disk copy.
pub open spec fn on_disk(record: CacheBlockRecord) -> CacheBlockRecord {
    CacheBlockRecord { arrays: None, tier: CacheTier::Disk, ..record }
}

impl CacheResidencyReport {
    /// Whether every cumulative counter equals that of `base`, except that the activity
    /// is `activity`.
    pub open spec fn counts(self, base: CacheResidencyReport, activity: Activity) -> bool {
        &&& self.activity() == activity
        &&& self.keeps_counters(base.with_activity(activity))
    }
}

impl CacheResidencyManager {
    /// Logical bytes on the device, with tails.
    pub open spec fn device_bytes(self) -> int {
        crate::cache_residency::report::tally(self.parts(), None).holdings.current_device_bytes
    }

    /// Logical bytes on the host, with arrays of writes in flight.
    pub open spec fn host_bytes(self) -> int {
        crate::cache_residency::report::tally(self.parts(), None).holdings.current_host_bytes
    }

    /// The block that leaves a tier next.
    pub open spec fn eviction_pick(
        self,
        tier: CacheTier,
        required: Option<CacheBlockId>,
        recent_per_layer: usize,
    ) -> Option<CacheBlockId> {
        crate::cache_residency::eviction::picked(
            self.blocks@,
            self.options@.eviction_policy,
            tier,
            required,
            recent_per_layer,
        )
    }

    /// A write in flight: a reserved one, otherwise the first block's.
    pub open spec fn write_in_flight(self) -> Option<DiskTicket> {
        if self.host_write_reservations@.len() > 0 {
            Some(self.host_write_reservations@[0].ticket)
        } else {
            first_writing(self.blocks@)
        }
    }

    /// Live disk bytes with those of a block that is written next.
    pub open spec fn projected_disk_bytes(self, id: CacheBlockId) -> u64 {
        saturated(
            saturated(
                live_disk_bytes(self.blocks@) + reserved_bytes(self.host_write_reservations@),
            ) + self.block(id).bytes,
        )
    }

    /// What demoting a host block decides.
    pub open spec fn demotion_decision(self, id: CacheBlockId) -> DemotionDecision {
        let record = self.block(id);
        if !self.has_block(id) || record.tier != CacheTier::Host || record.leases != 0
            || record.pending_disk is Some {
            DemotionDecision::Retry
        } else if record.disk is Some {
            DemotionDecision::Free
        } else {
            match self.options@.disk_budget() {
                None => DemotionDecision::Refuse(
                    CacheFailure::LiveDiskRequired(
                        self.host_bytes() as u64,
                        self.options@.host_budget_bytes,
                    ),
                ),
                Some(budget) => if self.projected_disk_bytes(id) > budget {
                    DemotionDecision::Refuse(
                        CacheFailure::BudgetExceeded(
                            CacheTier::Disk,
                            self.projected_disk_bytes(id),
                            budget,
                        ),
                    )
                } else {
                    DemotionDecision::Write
                },
            }
        }
    }

    /// What is done about the host once no host block can leave it.
    pub open spec fn host_fallback(
        self,
        refusal: CacheFailure,
        layer: Option<usize>,
    ) -> RebalanceDecision {
        match self.write_in_flight() {
            Some(ticket) => RebalanceDecision::Await(ticket),
            None => RebalanceDecision::Refuse(refusal, layer),
        }
    }

    /// What a rebalancing step decides. Device blocks over the device budget fall back
    /// to their disk copy or move to the host; host blocks over the host budget, or in
    /// the way of a device block, are demoted to disk; a full host tier starts one
    /// write ahead of need.
    pub open spec fn rebalance_decision(
        self,
        required: Option<CacheBlockId>,
    ) -> RebalanceDecision {
        let limits = self.options@;
        let layer = match required {
            Some(id) => Some(id.global_layer),
            None => None,
        };
        let host_pick = self.eviction_pick(CacheTier::Host, required, 0);
        if self.background_disk_error is Some {
            RebalanceDecision::Background(self.background_disk_error->Some_0@)
        } else if self.device_bytes() > limits.device_budget_bytes {
            match self.eviction_pick(CacheTier::Device, required, limits.recent_device_blocks) {
                None => RebalanceDecision::Refuse(
                    CacheFailure::BudgetExceeded(
                        CacheTier::Device,
                        self.device_bytes() as u64,
                        limits.device_budget_bytes,
                    ),
                    layer,
                ),
                Some(id) => {
                    let record = self.block(id);
                    let needed = saturated(self.host_bytes() + record.bytes);
                    if record.disk is Some {
                        RebalanceDecision::DropToDisk(id)
                    } else if needed <= limits.host_budget_bytes {
                        RebalanceDecision::Copy(id)
                    } else if record.bytes > limits.host_budget_bytes {
                        RebalanceDecision::Refuse(
                            CacheFailure::BudgetExceeded(
                                CacheTier::Host,
                                record.bytes,
                                limits.host_budget_bytes,
                            ),
                            Some(id.global_layer),
                        )
                    } else {
                        match host_pick {
                            Some(host) => RebalanceDecision::Demote(host, true),
                            None => self.host_fallback(
                                if limits.disk_budget() is None {
                                    CacheFailure::LiveDiskRequired(
                                        needed,
                                        limits.host_budget_bytes,
                                    )
                                } else {
                                    CacheFailure::BudgetExceeded(
                                        CacheTier::Host,
                                        needed,
                                        limits.host_budget_bytes,
                                    )
                                },
                                Some(id.global_layer),
                            ),
                        }
                    }
                },
            }
        } else if self.host_bytes() > limits.host_budget_bytes {
            match host_pick {
                Some(host) => RebalanceDecision::Demote(host, true),
                None => self.host_fallback(
                    CacheFailure::BudgetExceeded(
                        CacheTier::Host,
                        self.host_bytes() as u64,
                        limits.host_budget_bytes,
                    ),
                    layer,
                ),
            }
        } else if limits.disk_budget() is Some && self.host_bytes() != 0 && self.host_bytes()
            >= limits.host_budget_bytes && host_pick is Some {
            RebalanceDecision::Demote(host_pick->Some_0, false)
        } else {
            RebalanceDecision::Settled
        }
    }

    /// Whether this manager is `before` with a host block demoted, and `progress` what
    /// is left to do.
    pub open spec fn demoted(
        self,
        before: CacheResidencyManager,
        id: CacheBlockId,
        progress: Result<HostDemotionProgress, CacheResidencyError>,
    ) -> bool {
        let record = before.block(id);
        let index = before.block_index(id);
        let key = DiskOperationKey {
            generation: before.generation,
            id,
            kind: DiskOperationKind::Write,
        };
        match before.demotion_decision(id) {
            DemotionDecision::Retry => {
                &&& progress == Ok::<_, CacheResidencyError>(HostDemotionProgress::Retry)
                &&& self == before
            },
            DemotionDecision::Free => {
                &&& progress == Ok::<_, CacheResidencyError>(HostDemotionProgress::Freed)
                &&& self.blocks@ == before.blocks@.update(index, on_disk(record))
                &&& self.credits(before, Some(id.global_layer), disk_demotion_activity())
                &&& self.report.counts(
                    before.report,
                    before.report.activity().plus(disk_demotion_activity()),
                )
                &&& self.reports(
                    before.report.with_activity(
                        before.report.activity().plus(disk_demotion_activity()),
                    ),
                )
                &&& self == (CacheResidencyManager {
                    blocks: self.blocks,
                    layer_activity: self.layer_activity,
                    layer_activity_overflow: self.layer_activity_overflow,
                    report: self.report,
                    ..before
                })
            },
            DemotionDecision::Refuse(failure) => {
                &&& progress matches Err(error) && error@ == failure
                &&& self.attributes(
                    before,
                    Some(id.global_layer),
                    crate::cache_residency::lease::failure_activity(),
                )
            },
            DemotionDecision::Write => {
                &&& progress matches Ok(HostDemotionProgress::Pending { ticket, send })
                &&& ticket.key == key
                &&& send == !before.worker.joins(key)
                &&& self.worker.knows(ticket)
                &&& self.worker.in_flight@.contains(ticket)
                &&& send ==> self.worker.pending(ticket)
                &&& self.blocks@ == before.blocks@.update(
                    index,
                    (CacheBlockRecord { pending_disk: Some(ticket), ..record }),
                )
                &&& !send ==> self.host_write_reservations@ == before.host_write_reservations@
                &&& send ==> self.host_write_reservations@ == without_reservation(
                    before.host_write_reservations@,
                    key,
                ).push(
                    (HostWriteReservation {
                        reservation_id: before.next_reservation_id,
                        global_layer: id.global_layer,
                        bytes: record.bytes,
                        ticket,
                    }),
                )
                &&& self.next_reservation_id == (if !send {
                    before.next_reservation_id
                } else if before.next_reservation_id == u64::MAX {
                    0
                } else {
                    (before.next_reservation_id + 1) as u64
                })
                &&& self.worker.prepared(before.worker, key, ticket, !send)
                &&& self.report.counts(before.report, before.report.activity())
                &&& self.reports(before.report)
                &&& self == (CacheResidencyManager {
                    blocks: self.blocks,
                    host_write_reservations: self.host_write_reservations,
                    next_reservation_id: self.next_reservation_id,
                    report: self.report,
                    worker: self.worker,
                    ..before
                })
            },
        }
    }
}

proof fn concatenation_weighs(left: Seq<Part>, right: Seq<Part>)
    ensures
        crate::cache_residency::report::bytes_of(left + right)
            == crate::cache_residency::report::bytes_of(left)
            + crate::cache_residency::report::bytes_of(right),
    decreases right.len(),
{
    if right.len() == 0 {
        assert(left + right =~= left);
    } else {
        concatenation_weighs(left, right.drop_last());
        assert((left + right).drop_last() =~= left + right.drop_last());
        assert((left + right).last() == right.last());
    }
}

proof fn live_bytes_within(
    blocks: Seq<CacheBlockRecord>,
    reservations: Seq<HostWriteReservation>,
)
    ensures
        0 <= live_disk_bytes(blocks) <= crate::cache_residency::report::bytes_of(
            blocks.map_values(
                |record: CacheBlockRecord|
                    crate::cache_residency::report::record_part(reservations, record),
            ),
        ),
    decreases blocks.len(),
{
    let part = |record: CacheBlockRecord|
        crate::cache_residency::report::record_part(reservations, record);
    if blocks.len() > 0 {
        live_bytes_within(blocks.drop_last(), reservations);
        assert(blocks.map_values(part).drop_last() =~= blocks.drop_last().map_values(part));
    }
}

proof fn reserved_bytes_are(
    reservations: Seq<HostWriteReservation>,
    blocks: Seq<CacheBlockRecord>,
)
    ensures
        0 <= reserved_bytes(reservations) == crate::cache_residency::report::bytes_of(
            reservations.map_values(
                |reservation: HostWriteReservation|
                    crate::cache_residency::report::reservation_part(blocks, reservation),
            ),
        ),
    decreases reservations.len(),
{
    let part = |reservation: HostWriteReservation|
        crate::cache_residency::report::reservation_part(blocks, reservation);
    if reservations.len() > 0 {
        reserved_bytes_are(reservations.drop_last(), blocks);
        assert(reservations.map_values(part).drop_last() =~= reservations.drop_last().map_values(
            part,
        ));
    }
}

/// Live disk bytes and reserved bytes are among the bytes of the catalog.
proof fn disk_bytes_fit(manager: CacheResidencyManager)
    requires
        manager.fits(),
    ensures
        0 <= live_disk_bytes(manager.blocks@),
        0 <= reserved_bytes(manager.host_write_reservations@),
        live_disk_bytes(manager.blocks@) + reserved_bytes(manager.host_write_reservations@)
            <= u64::MAX,
{
    let tails = manager.tails@.map_values(
        |tail: crate::cache_residency::catalog::CacheTail|
            crate::cache_residency::report::tail_part(tail),
    );
    let blocks = manager.blocks@.map_values(
        |record: CacheBlockRecord|
            crate::cache_residency::report::record_part(
                manager.host_write_reservations@,
                record,
            ),
    );
    let reservations = manager.host_write_reservations@.map_values(
        |reservation: HostWriteReservation|
            crate::cache_residency::report::reservation_part(manager.blocks@, reservation),
    );
    concatenation_weighs(tails + blocks, reservations);
    concatenation_weighs(tails, blocks);
    live_bytes_within(manager.blocks@, manager.host_write_reservations@);
    reserved_bytes_are(manager.host_write_reservations@, manager.blocks@);
    crate::cache_residency::report::parts_are_modest(manager);
    crate::cache_residency::report::prefix_is_smaller(manager.parts(), tails.len() as int);
    assert(manager.parts().take(tails.len() as int) =~= tails);
    tails_weigh(manager.tails@);
}

proof fn tails_weigh(tails: Seq<crate::cache_residency::catalog::CacheTail>)
    ensures
        0 <= crate::cache_residency::report::bytes_of(
            tails.map_values(
                |tail: crate::cache_residency::catalog::CacheTail|
                    crate::cache_residency::report::tail_part(tail),
            ),
        ),
    decreases tails.len(),
{
    let part = |tail: crate::cache_residency::catalog::CacheTail|
        crate::cache_residency::report::tail_part(tail);
    if tails.len() > 0 {
        tails_weigh(tails.drop_last());
        assert(tails.map_values(part).drop_last() =~= tails.drop_last().map_values(part));
    }
}

/// Dropping a reservation keeps the catalog consistent and weighs no more.
proof fn reservation_removal(before: CacheResidencyManager, after: CacheResidencyManager, index: int)
    requires
        before.wf(),
        0 <= index < before.host_write_reservations@.len(),
        after.host_write_reservations@ == before.host_write_reservations@.remove(index),
        after == (CacheResidencyManager {
            host_write_reservations: after.host_write_reservations,
            ..before
        }),
    ensures
        after.wf(),
        after.weighs_at_most(before),
{
    let old_list = before.host_write_reservations@;
    let new_list = after.host_write_reservations@;
    let source = |i: int|
        if i < index {
            i
        } else {
            i + 1
        };
    assert forall|i: int, j: int| 0 <= i < j < new_list.len() implies (
    #[trigger] new_list[i]).ticket.key != (#[trigger] new_list[j]).ticket.key by {
        assert(new_list[i] == old_list[source(i)] && new_list[j] == old_list[source(j)]);
    }
    assert forall|i: int| 0 <= i < new_list.len() implies after.worker.knows(
        (#[trigger] new_list[i]).ticket,
    ) by {
        assert(new_list[i] == old_list[source(i)]);
    }
    let offset = (before.tails@.len() + before.blocks@.len()) as int;
    let shorter = before.parts().remove(offset + index);
    crate::cache_residency::report::parts_are_modest(before);
    assert(crate::cache_residency::report::modest(before.parts()[offset + index]));
    crate::cache_residency::report::removal_weighs(before.parts(), offset + index);
    let actual = after.parts();
    assert forall|i: int| 0 <= i < actual.len() implies (#[trigger] actual[i]).bytes
        == shorter[i].bytes && actual[i].tokens == shorter[i].tokens by {
        if i >= offset {
            assert(new_list[i - offset] == old_list[source(i - offset)]);
        }
    }
    crate::cache_residency::report::weights_agree(actual, shorter);
}

impl CacheResidencyManager {
    /// Drops the reservation of a write.
    pub(crate) fn drop_reservation(&mut self, key: &DiskOperationKey)
        requires
            old(self).wf(),
        ensures
            final(self).wf(),
            final(self).weighs_at_most(*old(self)),
            !crate::cache_residency::report::reserved(
                final(self).host_write_reservations@,
                *key,
            ),
            final(self).host_write_reservations@ == without_reservation(
                old(self).host_write_reservations@,
                *key,
            ),
            *final(self) == (CacheResidencyManager {
                host_write_reservations: final(self).host_write_reservations,
                ..*old(self)
            }),
    {
        let ghost before = self.host_write_reservations@;
        let mut index: usize = 0;
        while index < self.host_write_reservations.len()
            invariant
                self.host_write_reservations@ == before,
                *self == *old(self),
                self.wf(),
                index <= before.len(),
                forall|i: int| 0 <= i < index ==> (#[trigger] before[i]).ticket.key != *key,
            decreases before.len() - index,
        {
            if self.host_write_reservations[index].ticket.key == *key {
                self.host_write_reservations.remove(index);
                proof {
                    reservation_removal(*old(self), *self, index as int);
                    assert(before[index as int].ticket.key == *key);
                    let found = reservation_index(before, *key);
                    if found < index {
                        assert(before[found].ticket.key != *key);
                    }
                    if found > index {
                        assert(before[index as int].ticket.key != before[found].ticket.key);
                    }
                    let after = self.host_write_reservations@;
                    if crate::cache_residency::report::reserved(after, *key) {
                        let i = choose|i: int|
                            0 <= i < after.len() && (#[trigger] after[i]).ticket.key == *key;
                        if i < index {
                            assert(after[i] == before[i]);
                        } else {
                            assert(after[i] == before[i + 1]);
                            assert(before[index as int].ticket.key != before[i + 1].ticket.key);
                        }
                    }
                }
                return ;
            }
            index = index + 1;
        }
    }

    fn sum_live_disk_bytes(&self) -> (bytes: u64)
        requires
            self.fits(),
        ensures
            bytes == live_disk_bytes(self.blocks@),
    {
        proof {
            disk_bytes_fit(*self);
        }
        let mut bytes: u64 = 0;
        let mut index: usize = 0;
        while index < self.blocks.len()
            invariant
                index <= self.blocks@.len(),
                live_disk_bytes(self.blocks@) <= u64::MAX,
                bytes == live_disk_bytes(self.blocks@.take(index as int)),
            decreases self.blocks@.len() - index,
        {
            let ghost prefix = self.blocks@.take(index + 1);
            proof {
                assert(prefix.drop_last() =~= self.blocks@.take(index as int));
                live_bytes_grow(self.blocks@, index + 1);
            }
            let live = match &self.blocks[index].disk {
                Some(location) => !location.persistent,
                None => false,
            };
            if live {
                bytes = bytes + self.blocks[index].bytes;
            }
            index = index + 1;
        }
        assert(self.blocks@.take(index as int) =~= self.blocks@);
        bytes
    }

    fn sum_reserved_bytes(&self) -> (bytes: u64)
        requires
            self.fits(),
        ensures
            bytes == reserved_bytes(self.host_write_reservations@),
    {
        proof {
            disk_bytes_fit(*self);
        }
        let mut bytes: u64 = 0;
        let mut index: usize = 0;
        while index < self.host_write_reservations.len()
            invariant
                index <= self.host_write_reservations@.len(),
                reserved_bytes(self.host_write_reservations@) <= u64::MAX,
                bytes == reserved_bytes(self.host_write_reservations@.take(index as int)),
            decreases self.host_write_reservations@.len() - index,
        {
            let ghost prefix = self.host_write_reservations@.take(index + 1);
            proof {
                assert(prefix.drop_last() =~= self.host_write_reservations@.take(index as int));
                reserved_bytes_grow(self.host_write_reservations@, index + 1);
            }
            bytes = bytes + self.host_write_reservations[index].bytes;
            index = index + 1;
        }
        assert(self.host_write_reservations@.take(index as int)
            =~= self.host_write_reservations@);
        bytes
    }

    /// Demotes an idle host block: its disk copy takes over at once, or a background
    /// write begins. Until the write's task drops its arrays they stay charged to the
    /// host.
    #[verifier::rlimit(60)]
    pub fn begin_host_demotion(&mut self, id: &CacheBlockId) -> (progress: Result<
        HostDemotionProgress,
        CacheResidencyError,
    >)
        requires
            old(self).wf(),
            old(self).fits(),
            old(self).room_for_write(),
            old(self).report.current_host_bytes == old(self).host_bytes(),
            old(self).report.activity().plus(
                crate::cache_residency::lease::failure_activity(),
            ).plus(disk_demotion_activity()).fits(),
            old(self).worker.completions@.len() < usize::MAX,
        ensures
            final(self).wf(),
            final(self).fits(),
            final(self).demoted(*old(self), *id, progress),
    {
        let index: usize = match self.find_block(id) {
            Some(index) => index,
            None => {
                return Ok(HostDemotionProgress::Retry);
            },
        };
        let ghost record = self.blocks@[index as int];
        proof {
            assert(record.placed());
        }
        if self.blocks[index].tier != CacheTier::Host || self.blocks[index].leases != 0
            || self.blocks[index].pending_disk.is_some() {
            return Ok(HostDemotionProgress::Retry);
        }
        if self.blocks[index].disk.is_some() {
            self.blocks[index].arrays = None;
            self.blocks[index].tier = CacheTier::Disk;
            proof {
                assert(self.blocks@ =~= old(self).blocks@.update(index as int, on_disk(record)));
                old(self).record_update_keeps_wf(*self, index as int, on_disk(record));
            }
            let mut delta = CacheLayerActivityCounters::none();
            delta.disk_demotions = 1;
            let ghost earlier = *self;
            self.note_activity(Some(id.global_layer), &delta);
            assert(self.parts() == earlier.parts());
            self.update_report_totals();
            return Ok(HostDemotionProgress::Freed);
        }
        let budget: u64 = match self.options.disk_budget() {
            Some(budget) => budget,
            None => {
                let required: u64 = self.report.current_host_bytes;
                let host_budget: u64 = self.options.host_budget_bytes();
                self.note_activity(
                    Some(id.global_layer),
                    &crate::cache_residency::lease::failure_counters(),
                );
                assert(self.parts() == old(self).parts());
                return Err(
                    CacheResidencyError::LiveDiskRequired { required, budget: host_budget },
                );
            },
        };
        let bytes: u64 = self.blocks[index].bytes;
        proof {
            disk_bytes_fit(*self);
        }
        let live: u64 = self.sum_live_disk_bytes().saturating_add(self.sum_reserved_bytes());
        let projected: u64 = live.saturating_add(bytes);
        if projected > budget {
            self.note_activity(
                Some(id.global_layer),
                &crate::cache_residency::lease::failure_counters(),
            );
            assert(self.parts() == old(self).parts());
            return Err(
                CacheResidencyError::BudgetExceeded {
                    tier: CacheTier::Disk,
                    required: projected,
                    budget,
                },
            );
        }
        let key = DiskOperationKey {
            generation: self.generation,
            id: *id,
            kind: DiskOperationKind::Write,
        };
        let submission = self.worker.prepare(key);
        let ticket = submission.ticket;
        proof {
            if !submission.joined {
                let tickets = self.worker.in_flight@;
                assert(tickets[tickets.len() - 1] == ticket);
            }
        }
        self.blocks[index].pending_disk = Some(ticket);
        let ghost waiting = CacheBlockRecord { pending_disk: Some(ticket), ..record };
        proof {
            assert(self.blocks@ =~= old(self).blocks@.update(index as int, waiting));
            old(self).record_update_keeps_wf(*self, index as int, waiting);
        }
        if !submission.joined {
            self.drop_reservation(&key);
            let reservation = HostWriteReservation {
                reservation_id: self.next_reservation_id,
                global_layer: id.global_layer,
                bytes,
                ticket,
            };
            let ghost earlier = *self;
            self.next_reservation_id = if self.next_reservation_id == u64::MAX {
                0
            } else {
                self.next_reservation_id + 1
            };
            self.host_write_reservations.push(reservation);
            proof {
                crate::cache_residency::report::reservation_weight(earlier, *self, reservation);
                assert(old(self).room_for(1, old(self).blocks@[index as int].bytes as int, 0));
                let before = earlier.host_write_reservations@;
                let after = self.host_write_reservations@;
                assert forall|i: int, j: int| 0 <= i < j < after.len() implies (
                #[trigger] after[i]).ticket.key != (#[trigger] after[j]).ticket.key by {
                    assert(after[i] == before[i]);
                    if j < before.len() {
                        assert(after[j] == before[j]);
                    } else if before[i].ticket.key == key {
                        assert(crate::cache_residency::report::reserved(before, key));
                    }
                }
                assert forall|i: int| 0 <= i < after.len() implies self.worker.knows(
                    (#[trigger] after[i]).ticket,
                ) by {
                    if i < before.len() {
                        assert(after[i] == before[i]);
                    }
                }
            }
        }
        self.update_report_totals();
        Ok(HostDemotionProgress::Pending { ticket, send: !submission.joined })
    }

    /// Records that a background write was handed to the worker.
    pub fn finish_submission(
        &mut self,
        ticket: &DiskTicket,
        outcome: DiskSubmissionOutcome,
        enqueue_wait: u128,
    )
        requires
            old(self).wf(),
            old(self).fits(),
            old(self).report.queue_backpressure < u64::MAX,
            old(self).report.activity().plus(
                crate::cache_residency::lease::wait_activity(enqueue_wait),
            ).fits(),
        ensures
            final(self).wf(),
            final(self).credits(
                *old(self),
                Some(ticket.key.id.global_layer),
                submission_activity(outcome, enqueue_wait),
            ),
            final(self).reports(
                crate::cache_residency::lease::with_submission(
                    old(self).report,
                    Some(outcome),
                ).with_activity(
                    old(self).report.activity().plus(
                        submission_activity(outcome, enqueue_wait),
                    ),
                ),
            ),
            *final(self) == (CacheResidencyManager {
                layer_activity: final(self).layer_activity,
                layer_activity_overflow: final(self).layer_activity_overflow,
                report: final(self).report,
                ..*old(self)
            }),
    {
        let mut delta = CacheLayerActivityCounters::none();
        if outcome.joined {
            delta.in_flight_waits = 1;
        }
        if outcome.backpressure {
            delta.transfer_wait = enqueue_wait;
        }
        self.note_activity(Some(ticket.key.id.global_layer), &delta);
        let ghost earlier = *self;
        self.note_submission(&Some(outcome));
        assert(self.parts() == old(self).parts());
        self.update_report_totals();
    }

    /// Records that a background write could not be handed to the worker.
    pub fn fail_submission(&mut self, ticket: &DiskTicket)
        requires
            old(self).wf(),
            old(self).fits(),
            old(self).report.activity().plus(
                crate::cache_residency::lease::failure_activity(),
            ).fits(),
        ensures
            final(self).wf(),
            final(self).blocks@ == crate::cache_residency::lease::forgotten(
                *old(self),
                ticket.key.id,
                *ticket,
            ),
            final(self).worker.retired(old(self).worker, *ticket),
            final(self).credits(
                *old(self),
                Some(ticket.key.id.global_layer),
                crate::cache_residency::lease::failure_activity(),
            ),
            final(self).report.counts(
                old(self).report,
                old(self).report.activity().plus(crate::cache_residency::lease::failure_activity()),
            ),
            final(self).reports(
                old(self).report.with_activity(
                    old(self).report.activity().plus(
                        crate::cache_residency::lease::failure_activity(),
                    ),
                ),
            ),
            *final(self) == (CacheResidencyManager {
                blocks: final(self).blocks,
                worker: final(self).worker,
                layer_activity: final(self).layer_activity,
                layer_activity_overflow: final(self).layer_activity_overflow,
                report: final(self).report,
                ..*old(self)
            }),
    {
        self.forget_pending(&ticket.key.id, ticket);
        let ghost earlier = *self;
        self.note_activity(
            Some(ticket.key.id.global_layer),
            &crate::cache_residency::lease::failure_counters(),
        );
        assert(self.parts() == earlier.parts());
        self.update_report_totals();
        self.worker.retire(ticket);
    }

    /// Records a wait for a background write. A failure that this caller observed is
    /// not reported again as a background failure.
    pub fn finish_host_release(
        &mut self,
        ticket: &DiskTicket,
        waited: u128,
        reply: DiskReply,
    ) -> (outcome: Result<(), CacheResidencyError>)
        requires
            old(self).wf(),
            old(self).fits(),
            old(self).report.activity().plus(
                crate::cache_residency::lease::wait_activity(waited),
            ).fits(),
        ensures
            final(self).wf(),
            crate::cache_residency::error::failure_of(outcome) == (match reply {
                DiskReply::Written => None,
                DiskReply::Read(_) => Some(
                    CacheFailure::Runtime(
                        "cache disk worker returned an unexpected write result"@,
                    ),
                ),
                DiskReply::Cancelled { generation } => Some(
                    CacheFailure::DiskOperationCancelled(generation),
                ),
                DiskReply::Failed(error) => Some(error@),
            }),
            final(self).credits(
                *old(self),
                Some(ticket.key.id.global_layer),
                crate::cache_residency::lease::wait_activity(waited),
            ),
            final(self).reports(
                old(self).report.with_activity(
                    old(self).report.activity().plus(
                        crate::cache_residency::lease::wait_activity(waited),
                    ),
                ),
            ),
            final(self).background_disk_error == (match reply {
                DiskReply::Written | DiskReply::Read(_) => old(self).background_disk_error,
                _ => None,
            }),
            *final(self) == (CacheResidencyManager {
                background_disk_error: final(self).background_disk_error,
                layer_activity: final(self).layer_activity,
                layer_activity_overflow: final(self).layer_activity_overflow,
                report: final(self).report,
                ..*old(self)
            }),
    {
        let mut delta = CacheLayerActivityCounters::none();
        delta.in_flight_waits = 1;
        delta.transfer_wait = waited;
        self.note_activity(Some(ticket.key.id.global_layer), &delta);
        assert(self.parts() == old(self).parts());
        match reply {
            DiskReply::Written => {
                self.update_report_totals();
                Ok(())
            },
            DiskReply::Read(_) => {
                self.update_report_totals();
                Err(
                    CacheResidencyError::Runtime(
                        "cache disk worker returned an unexpected write result".to_owned(),
                    ),
                )
            },
            DiskReply::Cancelled { generation } => {
                self.background_disk_error = None;
                assert(self.parts() == old(self).parts());
                self.update_report_totals();
                Err(CacheResidencyError::DiskOperationCancelled { generation })
            },
            DiskReply::Failed(error) => {
                self.background_disk_error = None;
                assert(self.parts() == old(self).parts());
                self.update_report_totals();
                Err(error)
            },
        }
    }

    /// Records the arrays of a device block that were copied to the host.
    pub fn finish_host_copy(&mut self, id: &CacheBlockId, host_arrays: CacheBlockArrays)
        requires
            old(self).wf(),
            old(self).has_block(*id),
            old(self).report.activity().plus(
                host_demotion_activity(old(self).block(*id).bytes),
            ).fits(),
        ensures
            final(self).wf(),
            final(self).weighs_as(*old(self)),
            final(self).blocks@ == old(self).blocks@.update(
                old(self).block_index(*id),
                (CacheBlockRecord {
                    arrays: Some(host_arrays),
                    tier: CacheTier::Host,
                    ..old(self).block(*id)
                }),
            ),
            final(self).attributes(
                (CacheResidencyManager { blocks: final(self).blocks, ..*old(self) }),
                Some(id.global_layer),
                host_demotion_activity(old(self).block(*id).bytes),
            ),
    {
        match self.find_block(id) {
            Some(index) => {
                let bytes: u64 = self.blocks[index].bytes;
                self.blocks[index].arrays = Some(host_arrays);
                self.blocks[index].tier = CacheTier::Host;
                proof {
                    let record = CacheBlockRecord {
                        arrays: Some(host_arrays),
                        tier: CacheTier::Host,
                        ..old(self).blocks@[index as int]
                    };
                    assert(old(self).blocks@[index as int].pending_disk matches Some(ticket)
                        ==> old(self).worker.knows(ticket));
                    assert(self.blocks@ =~= old(self).blocks@.update(index as int, record));
                    old(self).record_update_keeps_wf(*self, index as int, record);
                }
                let mut delta = CacheLayerActivityCounters::none();
                delta.host_demotions = 1;
                delta.transfer_bytes = bytes;
                let ghost earlier = *self;
                self.note_activity(Some(id.global_layer), &delta);
                assert(self.parts() == earlier.parts());
            },
            None => {},
        }
    }
}

/// Activity of handing a write to the worker.
pub open spec fn submission_activity(
    outcome: DiskSubmissionOutcome,
    enqueue_wait: u128,
) -> Activity {
    Activity {
        in_flight_waits: if outcome.joined {
            1
        } else {
            0
        },
        transfer_wait: if outcome.backpressure {
            enqueue_wait as int
        } else {
            0
        },
        ..Activity::zero()
    }
}

proof fn live_bytes_grow(blocks: Seq<CacheBlockRecord>, length: int)
    requires
        0 <= length <= blocks.len(),
    ensures
        0 <= live_disk_bytes(blocks.take(length)) <= live_disk_bytes(blocks),
    decreases blocks.len(),
{
    if length == blocks.len() {
        assert(blocks.take(length) =~= blocks);
        live_bytes_within(blocks, Seq::empty());
    } else {
        live_bytes_grow(blocks.drop_last(), length);
        assert(blocks.drop_last().take(length) =~= blocks.take(length));
    }
}

proof fn reserved_bytes_grow(reservations: Seq<HostWriteReservation>, length: int)
    requires
        0 <= length <= reservations.len(),
    ensures
        0 <= reserved_bytes(reservations.take(length)) <= reserved_bytes(reservations),
    decreases reservations.len(),
{
    if length == reservations.len() {
        assert(reservations.take(length) =~= reservations);
        reserved_bytes_are(reservations, Seq::empty());
    } else {
        reserved_bytes_grow(reservations.drop_last(), length);
        assert(reservations.drop_last().take(length) =~= reservations.take(length));
    }
}

} // verus!
