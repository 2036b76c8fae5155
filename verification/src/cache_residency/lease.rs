//! Demand leases: promotion of a block to the execution device.
//!
//! A lease is taken in steps. [`CacheResidencyManager::begin_lease`] says what the
//! block's tier asks for; the caller waits for the disk or copies arrays, reports what
//! came of it, and begins again until the block is leased.

use vstd::prelude::*;

use crate::cache_residency::block::{CacheBlockArrays, CacheBlockId, CacheTier};
use crate::cache_residency::catalog::{CacheBlockRecord, CacheResidencyManager};
use crate::cache_residency::error::{CacheFailure, CacheResidencyError};
use crate::cache_residency::stats::{
    Activity, CacheLayerActivityCounters, CacheResidencyReport,
};
use crate::cache_residency::worker::{
    DiskCompletionState, DiskOperationKey, DiskOperationKind, DiskTicket, DiskWorker,
};

verus! {

/// What a lease asks of the caller next.
#[derive(Debug)]
pub enum LeaseStep {
    /// The block was on the device and is leased now.
    Leased,
    /// The block's arrays are on the host and are to be copied to the device.
    CopyToDevice {
        /// Generation in which the copy was asked for.
        generation: u64,
    },
    /// The block is on disk.
    AwaitDisk {
        /// The read to wait for.
        ticket: DiskTicket,
        /// Whether another request's operation was joined.
        joined: bool,
        /// Whether the read is to be handed to the worker first.
        send: bool,
    },
}

/// How handing a request to the worker went.
#[derive(Debug, Clone, Copy, PartialEq, Eq, Structural)]
pub struct DiskSubmissionOutcome {
    /// Whether an operation in flight was joined.
    pub joined: bool,
    /// Whether the request waited for the queue.
    pub backpressure: bool,
    /// Largest number of requests that waited at once.
    pub peak_occupancy: usize,
}

/// What came of a disk operation.
#[derive(Debug)]
pub enum DiskReply {
    /// The arrays of a block.
    Read(CacheBlockArrays),
    /// A written shard.
    Written,
    /// The operation was cancelled.
    Cancelled {
        /// Generation of the operation.
        generation: u64,
    },
    /// The operation failed.
    Failed(CacheResidencyError),
}

impl DiskWorker {
    /// What a caller that waited for an operation gets: that it was cancelled, or what the
    /// worker handed back. An operation that settled without a result lost its worker.
    pub fn reply(
        &self,
        ticket: &DiskTicket,
        result: Option<Result<Option<CacheBlockArrays>, String>>,
    ) -> (reply: DiskReply)
        requires
            self.knows(*ticket),
            !self.pending(*ticket),
        ensures
            if self.completions@[ticket.operation as int].state == DiskCompletionState::Cancelled {
                reply == (DiskReply::Cancelled { generation: ticket.key.generation })
            } else {
                match result {
                    Some(Ok(Some(arrays))) => reply == DiskReply::Read(arrays),
                    Some(Ok(None)) => reply == DiskReply::Written,
                    Some(Err(message)) => reply == DiskReply::Failed(
                        CacheResidencyError::Runtime(message),
                    ),
                    None => reply matches DiskReply::Failed(error) && error@
                        == CacheFailure::Runtime("live cache disk worker stopped"@),
                }
            },
    {
        if self.completions[ticket.operation].state == DiskCompletionState::Cancelled {
            return DiskReply::Cancelled { generation: ticket.key.generation };
        }
        match result {
            Some(Ok(Some(arrays))) => DiskReply::Read(arrays),
            Some(Ok(None)) => DiskReply::Written,
            Some(Err(message)) => DiskReply::Failed(CacheResidencyError::Runtime(message)),
            None => DiskReply::Failed(
                CacheResidencyError::Runtime("live cache disk worker stopped".to_owned()),
            ),
        }
    }
}

/// Activity of one demand access that found its block on the device.
pub open spec fn hit_activity(waited: u128) -> Activity {
    Activity { demand_hits: 1, transfer_wait: waited as int, ..Activity::zero() }
}

/// Activity of one demand access that promoted its block.
pub open spec fn miss_activity(from_disk: bool, bytes: u64, waited: u128) -> Activity {
    Activity {
        demand_misses: 1,
        disk_promotions: if from_disk {
            1
        } else {
            0
        },
        host_promotions: if from_disk {
            0
        } else {
            1
        },
        transfer_bytes: bytes as int,
        transfer_wait: waited as int,
        ..Activity::zero()
    }
}

/// Activity of one wait for an operation in flight.
pub open spec fn wait_activity(waited: u128) -> Activity {
    Activity { in_flight_waits: 1, transfer_wait: waited as int, ..Activity::zero() }
}

/// Activity of one failure.
pub open spec fn failure_activity() -> Activity {
    Activity { failures: 1, ..Activity::zero() }
}

pub(crate) fn failure_counters() -> (counters: CacheLayerActivityCounters)
    ensures
        counters@ == failure_activity(),
{
    let mut counters = CacheLayerActivityCounters::none();
    counters.failures = 1;
    counters
}

/// A record with one lease more, accessed now.
pub open spec fn accessed(record: CacheBlockRecord, clock: u64) -> CacheBlockRecord {
    CacheBlockRecord {
        leases: (record.leases + 1) as usize,
        access_count: (record.access_count + 1) as u64,
        last_access: clock,
        ..record
    }
}

/// A record with one lease less; without leases it stays as it is.
pub open spec fn unleased(record: CacheBlockRecord) -> CacheBlockRecord {
    if record.leases == 0 {
        record
    } else {
        CacheBlockRecord { leases: (record.leases - 1) as usize, ..record }
    }
}

/// The failure that a disk operation reports.
pub open spec fn reply_failure(reply: DiskReply) -> CacheFailure {
    match reply {
        DiskReply::Read(_) => CacheFailure::Runtime(
            "cache disk worker returned an unexpected operation result"@,
        ),
        DiskReply::Written => CacheFailure::Runtime(
            "cache disk worker returned an unexpected operation result"@,
        ),
        DiskReply::Cancelled { generation } => CacheFailure::DiskOperationCancelled(generation),
        DiskReply::Failed(error) => error@,
    }
}

/// Whether read arrays have the shapes and element types that were cataloged.
pub open spec fn matches_record(arrays: CacheBlockArrays, record: CacheBlockRecord) -> bool {
    &&& arrays.first_array().shape@ == record.first_shape@
    &&& arrays.second_array().shape@ == record.second_shape@
    &&& arrays.first_array().dtype@ == record.first_dtype@
    &&& arrays.second_array().dtype@ == record.second_dtype@
}

/// Whether a record waits for this very operation.
pub open spec fn awaits(record: CacheBlockRecord, ticket: DiskTicket) -> bool {
    record.pending_disk matches Some(pending) && pending.key == ticket.key
}

/// The report with the observations of a submission.
pub open spec fn with_submission(
    report: CacheResidencyReport,
    outcome: Option<DiskSubmissionOutcome>,
) -> CacheResidencyReport {
    match outcome {
        None => report,
        Some(outcome) => CacheResidencyReport {
            queue_peak_occupancy: if report.queue_peak_occupancy >= outcome.peak_occupancy {
                report.queue_peak_occupancy
            } else {
                outcome.peak_occupancy
            },
            queue_backpressure: (report.queue_backpressure + if outcome.backpressure {
                1int
            } else {
                0
            }) as u64,
            ..report
        },
    }
}

/// How a read settles for the block that asked for it.
pub enum ReadSettlement {
    /// The arrays are accepted: the block is on the host, unless it moved meanwhile.
    Loaded,
    /// The block left the catalog.
    Missing,
    /// The arrays do not match the catalog.
    Malformed,
    /// The generation of the read is over.
    Stale,
    /// The worker answered with something else.
    Unexpected,
    /// The read failed.
    Failed,
}

impl CacheResidencyManager {
    /// Whether replacing one record, in place, keeps the catalog consistent.
    pub(crate) proof fn record_update_keeps_wf(
        self,
        after: CacheResidencyManager,
        index: int,
        record: CacheBlockRecord,
    )
        requires
            self.wf(),
            0 <= index < self.blocks@.len(),
            record.id == self.blocks@[index].id,
            record.bytes == self.blocks@[index].bytes,
            record.placed(),
            record.pending_disk matches Some(ticket) ==> after.worker.knows(ticket),
            after.worker.wf(),
            after.worker.remembers(self.worker),
            after.blocks@ == self.blocks@.update(index, record),
            after == (CacheResidencyManager {
                blocks: after.blocks,
                worker: after.worker,
                access_clock: after.access_clock,
                ..self
            }),
        ensures
            after.wf(),
            after.weighs_as(self),
            after.block_index_unchanged(self),
    {
        let before = self.blocks@;
        let blocks = after.blocks@;
        assert forall|i: int, j: int| 0 <= i < j < blocks.len() implies crate::cache_residency::block::id_before(
            (#[trigger] blocks[i]).id,
            (#[trigger] blocks[j]).id,
        ) by {
            assert(crate::cache_residency::block::id_before(before[i].id, before[j].id));
        }
        assert forall|i: int| 0 <= i < blocks.len() implies (#[trigger] blocks[i]).placed() by {
            assert(before[i].placed());
        }
        assert forall|i: int| 0 <= i < blocks.len() implies ((#[trigger] blocks[i]).pending_disk matches Some(
            ticket,
        ) ==> after.worker.knows(ticket)) by {
            assert(before[i].pending_disk matches Some(ticket) ==> self.worker.knows(ticket));
        }
        assert forall|i: int|
            0 <= i < after.host_write_reservations@.len() implies after.worker.knows(
            (#[trigger] after.host_write_reservations@[i]).ticket,
        ) by {
            assert(self.worker.knows(self.host_write_reservations@[i].ticket));
        }
        crate::cache_residency::report::same_weight(self, after);
        assert forall|id: CacheBlockId| #[trigger] after.has_block(id) == self.has_block(id) by {
            if self.has_block(id) {
                let i = self.block_index(id);
                assert(blocks[i].id == id);
            }
            if after.has_block(id) {
                let i = after.block_index(id);
                assert(before[i].id == id);
            }
        }
        assert forall|id: CacheBlockId| self.has_block(id) implies #[trigger] after.block_index(id)
            == self.block_index(id) by {
            let i = self.block_index(id);
            assert(before[i].id == id);
            assert(blocks[i].id == id);
            after.block_index_is(i);
        }
    }

    /// Whether two catalogs hold the same identities at the same places.
    pub open spec fn block_index_unchanged(self, other: CacheResidencyManager) -> bool {
        &&& forall|id: CacheBlockId| #[trigger] self.has_block(id) == other.has_block(id)
        &&& forall|id: CacheBlockId|
            other.has_block(id) ==> #[trigger] self.block_index(id) == other.block_index(id)
    }

    /// Whether the counters of one demand access cannot overflow.
    pub open spec fn can_count_access(self, id: CacheBlockId, activity: Activity) -> bool {
        &&& self.access_clock < u64::MAX
        &&& self.report.activity().plus(activity).fits()
        &&& self.has_block(id) ==> self.block(id).leases < usize::MAX && self.block(id).access_count
            < u64::MAX
    }

    /// Takes the first step of a lease. A device block is leased at once; the caller then
    /// rebalances with the block required, and cancels the lease where that fails.
    pub fn begin_lease(&mut self, id: &CacheBlockId, waited: u128) -> (outcome: Result<
        LeaseStep,
        CacheResidencyError,
    >)
        requires
            old(self).wf(),
            old(self).can_count_access(*id, hit_activity(waited)),
            old(self).worker.completions@.len() < usize::MAX,
        ensures
            final(self).wf(),
            final(self).weighs_as(*old(self)),
            crate::cache_residency::error::failure_of(outcome) == (if old(self).has_block(*id) {
                None
            } else {
                Some(CacheFailure::MissingBlock(*id))
            }),
            outcome is Err ==> *final(self) == *old(self),
            outcome matches Ok(step) ==> {
                let record = old(self).block(*id);
                let index = old(self).block_index(*id);
                let key = DiskOperationKey {
                    generation: old(self).generation,
                    id: *id,
                    kind: DiskOperationKind::Read,
                };
                match record.tier {
                    CacheTier::Host => {
                        &&& step == LeaseStep::CopyToDevice { generation: old(self).generation }
                        &&& *final(self) == *old(self)
                    },
                    CacheTier::Device => {
                        &&& step == LeaseStep::Leased
                        &&& final(self).blocks@ == old(self).blocks@.update(
                            index,
                            accessed(record, (old(self).access_clock + 1) as u64),
                        )
                        &&& final(self).attributes(
                            (CacheResidencyManager {
                                blocks: final(self).blocks,
                                access_clock: (old(self).access_clock + 1) as u64,
                                ..*old(self)
                            }),
                            Some(id.global_layer),
                            hit_activity(waited),
                        )
                    },
                    CacheTier::Disk => match record.pending_disk {
                        Some(pending) => {
                            &&& step == LeaseStep::AwaitDisk {
                                ticket: pending,
                                joined: true,
                                send: false,
                            }
                            &&& *final(self) == *old(self)
                        },
                        None => {
                            &&& step matches LeaseStep::AwaitDisk { ticket, joined, send }
                            &&& ticket.key == key
                            &&& joined == old(self).worker.joins(key)
                            &&& send == !joined
                            &&& final(self).worker.in_flight@.contains(ticket)
                            &&& final(self).worker.knows(ticket)
                            &&& final(self).worker.prepared(
                                old(self).worker,
                                key,
                                ticket,
                                joined,
                            )
                            &&& send ==> final(self).worker.pending(ticket)
                            &&& final(self).blocks@ == old(self).blocks@.update(
                                index,
                                (CacheBlockRecord { pending_disk: Some(ticket), ..record }),
                            )
                            &&& *final(self) == (CacheResidencyManager {
                                blocks: final(self).blocks,
                                worker: final(self).worker,
                                ..*old(self)
                            })
                        },
                    },
                }
            },
    {
        let index: usize = match self.find_block(id) {
            Some(index) => index,
            None => {
                return Err(CacheResidencyError::MissingBlock(*id));
            },
        };
        match self.blocks[index].tier {
            CacheTier::Host => Ok(LeaseStep::CopyToDevice { generation: self.generation }),
            CacheTier::Device => {
                self.access_clock = self.access_clock + 1;
                let clock: u64 = self.access_clock;
                self.blocks[index].leases = self.blocks[index].leases + 1;
                self.blocks[index].access_count = self.blocks[index].access_count + 1;
                self.blocks[index].last_access = clock;
                proof {
                    let record = accessed(old(self).blocks@[index as int], clock);
                    assert(old(self).blocks@[index as int].placed());
                    assert(old(self).blocks@[index as int].pending_disk matches Some(ticket)
                        ==> old(self).worker.knows(ticket));
                    assert(self.blocks@ =~= old(self).blocks@.update(index as int, record));
                    old(self).record_update_keeps_wf(*self, index as int, record);
                }
                let mut delta = CacheLayerActivityCounters::none();
                delta.demand_hits = 1;
                delta.transfer_wait = waited;
                let ghost earlier = *self;
                self.note_activity(Some(id.global_layer), &delta);
                assert(self.parts() == earlier.parts());
                Ok(LeaseStep::Leased)
            },
            CacheTier::Disk => {
                let pending = self.blocks[index].pending_disk;
                match pending {
                    Some(ticket) => Ok(LeaseStep::AwaitDisk { ticket, joined: true, send: false }),
                    None => {
                        let key = DiskOperationKey {
                            generation: self.generation,
                            id: *id,
                            kind: DiskOperationKind::Read,
                        };
                        let submission = self.worker.prepare(key);
                        proof {
                            if !submission.joined {
                                let tickets = self.worker.in_flight@;
                                assert(tickets[tickets.len() - 1] == submission.ticket);
                            }
                        }
                        self.blocks[index].pending_disk = Some(submission.ticket);
                        proof {
                            let record = CacheBlockRecord {
                                pending_disk: Some(submission.ticket),
                                ..old(self).blocks@[index as int]
                            };
                            assert(old(self).blocks@[index as int].placed());
                            assert(self.blocks@ =~= old(self).blocks@.update(
                                index as int,
                                record,
                            ));
                            old(self).record_update_keeps_wf(*self, index as int, record);
                        }
                        Ok(
                            LeaseStep::AwaitDisk {
                                ticket: submission.ticket,
                                joined: submission.joined,
                                send: !submission.joined,
                            },
                        )
                    },
                }
            },
        }
    }

    /// Cancels a lease that could not be admitted.
    pub fn cancel_lease(&mut self, id: &CacheBlockId)
        requires
            old(self).wf(),
            old(self).fits(),
        ensures
            final(self).wf(),
            final(self).reports(old(self).report),
            final(self).blocks@ == (if old(self).has_block(*id) {
                old(self).blocks@.update(
                    old(self).block_index(*id),
                    unleased(old(self).block(*id)),
                )
            } else {
                old(self).blocks@
            }),
            *final(self) == (CacheResidencyManager {
                blocks: final(self).blocks,
                report: final(self).report,
                ..*old(self)
            }),
    {
        self.drop_lease(id);
        self.update_report_totals();
    }

    /// Takes one lease off a block.
    fn drop_lease(&mut self, id: &CacheBlockId)
        requires
            old(self).wf(),
        ensures
            final(self).wf(),
            final(self).weighs_as(*old(self)),
            final(self).blocks@ == (if old(self).has_block(*id) {
                old(self).blocks@.update(
                    old(self).block_index(*id),
                    unleased(old(self).block(*id)),
                )
            } else {
                old(self).blocks@
            }),
            *final(self) == (CacheResidencyManager { blocks: final(self).blocks, ..*old(self) }),
    {
        match self.find_block(id) {
            Some(index) => {
                if self.blocks[index].leases > 0 {
                    self.blocks[index].leases = self.blocks[index].leases - 1;
                }
                proof {
                    let record = unleased(old(self).blocks@[index as int]);
                    assert(old(self).blocks@[index as int].placed());
                    assert(old(self).blocks@[index as int].pending_disk matches Some(ticket)
                        ==> old(self).worker.knows(ticket));
                    assert(self.blocks@ =~= old(self).blocks@.update(index as int, record));
                    old(self).record_update_keeps_wf(*self, index as int, record);
                }
            },
            None => {},
        }
    }

    /// Releases a lease. Answers whether the caller is to rebalance: not while a
    /// background failure waits to be reported.
    pub fn release_lease(&mut self, id: &CacheBlockId) -> (rebalance: bool)
        requires
            old(self).wf(),
        ensures
            final(self).wf(),
            final(self).weighs_as(*old(self)),
            rebalance == (old(self).background_disk_error is None),
            final(self).blocks@ == (if old(self).has_block(*id) {
                old(self).blocks@.update(
                    old(self).block_index(*id),
                    unleased(old(self).block(*id)),
                )
            } else {
                old(self).blocks@
            }),
            *final(self) == (CacheResidencyManager { blocks: final(self).blocks, ..*old(self) }),
    {
        self.drop_lease(id);
        self.background_disk_error.is_none()
    }

    /// Records the arrays that were copied to the device and leases the block. The
    /// caller then rebalances with the block required, and takes the promotion back
    /// where that fails.
    pub fn finish_promotion(
        &mut self,
        id: &CacheBlockId,
        generation: u64,
        device_arrays: CacheBlockArrays,
        loaded_from_disk: bool,
        waited: u128,
    ) -> (outcome: Result<(), CacheResidencyError>)
        requires
            old(self).wf(),
            old(self).access_clock < u64::MAX,
            old(self).has_block(*id) ==> old(self).can_count_access(
                *id,
                miss_activity(loaded_from_disk, old(self).block(*id).bytes, waited),
            ),
        ensures
            final(self).wf(),
            final(self).weighs_as(*old(self)),
            crate::cache_residency::error::failure_of(outcome) == (if old(self).generation
                != generation {
                Some(CacheFailure::DiskOperationCancelled(generation))
            } else if !old(self).has_block(*id) {
                Some(CacheFailure::MissingBlock(*id))
            } else {
                None
            }),
            outcome is Err ==> *final(self) == (CacheResidencyManager {
                access_clock: if old(self).generation == generation {
                    (old(self).access_clock + 1) as u64
                } else {
                    old(self).access_clock
                },
                ..*old(self)
            }),
            outcome is Ok ==> {
                let record = old(self).block(*id);
                let clock = (old(self).access_clock + 1) as u64;
                &&& final(self).blocks@ == old(self).blocks@.update(
                    old(self).block_index(*id),
                    (CacheBlockRecord {
                        arrays: Some(device_arrays),
                        tier: CacheTier::Device,
                        ..accessed(record, clock)
                    }),
                )
                &&& final(self).attributes(
                    (CacheResidencyManager {
                        blocks: final(self).blocks,
                        access_clock: clock,
                        ..*old(self)
                    }),
                    Some(id.global_layer),
                    miss_activity(loaded_from_disk, record.bytes, waited),
                )
            },
    {
        if self.generation != generation {
            return Err(CacheResidencyError::DiskOperationCancelled { generation });
        }
        self.access_clock = self.access_clock + 1;
        let clock: u64 = self.access_clock;
        assert(self.parts() == old(self).parts());
        assert(self.has_block(*id) == old(self).has_block(*id));
        let index: usize = match self.find_block(id) {
            Some(index) => index,
            None => {
                return Err(CacheResidencyError::MissingBlock(*id));
            },
        };
        proof {
            old(self).block_index_is(index as int);
        }
        self.blocks[index].arrays = Some(device_arrays);
        self.blocks[index].tier = CacheTier::Device;
        self.blocks[index].leases = self.blocks[index].leases + 1;
        self.blocks[index].access_count = self.blocks[index].access_count + 1;
        self.blocks[index].last_access = clock;
        let bytes: u64 = self.blocks[index].bytes;
        proof {
            let record = CacheBlockRecord {
                arrays: Some(device_arrays),
                tier: CacheTier::Device,
                ..accessed(old(self).blocks@[index as int], clock)
            };
            assert(old(self).blocks@[index as int].pending_disk matches Some(ticket) ==> old(
                self,
            ).worker.knows(ticket));
            assert(self.blocks@ =~= old(self).blocks@.update(index as int, record));
            old(self).record_update_keeps_wf(*self, index as int, record);
        }
        let mut delta = CacheLayerActivityCounters::none();
        delta.demand_misses = 1;
        if loaded_from_disk {
            delta.disk_promotions = 1;
        } else {
            delta.host_promotions = 1;
        }
        delta.transfer_bytes = bytes;
        delta.transfer_wait = waited;
        let ghost earlier = *self;
        self.note_activity(Some(id.global_layer), &delta);
        assert(self.parts() == earlier.parts());
        Ok(())
    }

    /// Takes back a promotion that could not be admitted: the block is on the host
    /// again with its former arrays. A new generation leaves everything as it is.
    pub fn cancel_promotion(
        &mut self,
        id: &CacheBlockId,
        generation: u64,
        host_arrays: CacheBlockArrays,
    )
        requires
            old(self).wf(),
            old(self).fits(),
        ensures
            final(self).wf(),
            old(self).generation != generation ==> *final(self) == *old(self),
            old(self).generation == generation ==> final(self).reports(old(self).report)
                && final(self).blocks@ == (if old(self).has_block(*id) {
                old(self).blocks@.update(
                    old(self).block_index(*id),
                    (CacheBlockRecord {
                        tier: CacheTier::Host,
                        arrays: Some(host_arrays),
                        ..unleased(old(self).block(*id))
                    }),
                )
            } else {
                old(self).blocks@
            }),
            *final(self) == (CacheResidencyManager {
                blocks: final(self).blocks,
                report: final(self).report,
                ..*old(self)
            }),
    {
        if self.generation != generation {
            return ;
        }
        match self.find_block(id) {
            Some(index) => {
                if self.blocks[index].leases > 0 {
                    self.blocks[index].leases = self.blocks[index].leases - 1;
                }
                self.blocks[index].tier = CacheTier::Host;
                self.blocks[index].arrays = Some(host_arrays);
                proof {
                    let record = CacheBlockRecord {
                        tier: CacheTier::Host,
                        arrays: Some(host_arrays),
                        ..unleased(old(self).blocks@[index as int])
                    };
                    assert(old(self).blocks@[index as int].pending_disk matches Some(ticket)
                        ==> old(self).worker.knows(ticket));
                    assert(self.blocks@ =~= old(self).blocks@.update(index as int, record));
                    old(self).record_update_keeps_wf(*self, index as int, record);
                }
            },
            None => {},
        }
        self.update_report_totals();
    }

    /// How a read settles.
    pub open spec fn read_settlement(
        self,
        id: CacheBlockId,
        ticket: DiskTicket,
        reply: DiskReply,
    ) -> ReadSettlement {
        let stale = self.generation != ticket.key.generation;
        match reply {
            DiskReply::Read(arrays) => if stale {
                ReadSettlement::Stale
            } else if !self.has_block(id) {
                ReadSettlement::Missing
            } else if !matches_record(arrays, self.block(id)) {
                ReadSettlement::Malformed
            } else {
                ReadSettlement::Loaded
            },
            DiskReply::Written => ReadSettlement::Unexpected,
            DiskReply::Cancelled { .. } => if stale {
                ReadSettlement::Stale
            } else {
                ReadSettlement::Failed
            },
            DiskReply::Failed(_) => ReadSettlement::Failed,
        }
    }

    /// Forgets that a record waits for an operation.
    pub(crate) fn forget_pending(&mut self, id: &CacheBlockId, ticket: &DiskTicket)
        requires
            old(self).wf(),
        ensures
            final(self).wf(),
            final(self).weighs_as(*old(self)),
            final(self).block_index_unchanged(*old(self)),
            final(self).blocks@ == forgotten(*old(self), *id, *ticket),
            *final(self) == (CacheResidencyManager { blocks: final(self).blocks, ..*old(self) }),
    {
        match self.find_block(id) {
            Some(index) => {
                let pending = self.blocks[index].pending_disk;
                let same = match pending {
                    Some(pending) => pending.key == ticket.key,
                    None => false,
                };
                if same {
                    self.blocks[index].pending_disk = None;
                    proof {
                        let record = CacheBlockRecord {
                            pending_disk: None,
                            ..old(self).blocks@[index as int]
                        };
                        assert(old(self).blocks@[index as int].placed());
                        assert(self.blocks@ =~= old(self).blocks@.update(index as int, record));
                        old(self).record_update_keeps_wf(*self, index as int, record);
                    }
                }
            },
            None => {},
        }
    }

    /// Records what came of waiting for a read. On success the block's arrays are on
    /// the host, unless it moved meanwhile, and the lease begins again.
    pub fn finish_disk_read(
        &mut self,
        id: &CacheBlockId,
        ticket: &DiskTicket,
        shard_path: String,
        joined: bool,
        submission: Option<DiskSubmissionOutcome>,
        reply: DiskReply,
    ) -> (outcome: Result<(), CacheResidencyError>)
        requires
            old(self).wf(),
            old(self).report.queue_backpressure < u64::MAX,
            old(self).report.activity().plus(wait_activity(0)).plus(failure_activity()).fits(),
        ensures
            final(self).wf(),
            final(self).weighs_as(*old(self)),
            ({
                let settlement = old(self).read_settlement(*id, *ticket, reply);
                crate::cache_residency::error::failure_of(outcome) == (match settlement {
                    ReadSettlement::Loaded => None,
                    ReadSettlement::Missing => Some(CacheFailure::MissingBlock(*id)),
                    ReadSettlement::Malformed => Some(
                        CacheFailure::MalformedShard(
                            shard_path@,
                            "array shape or dtype does not match the manifest"@,
                        ),
                    ),
                    ReadSettlement::Stale => Some(
                        CacheFailure::DiskOperationCancelled(ticket.key.generation),
                    ),
                    ReadSettlement::Unexpected | ReadSettlement::Failed => Some(
                        reply_failure(reply),
                    ),
                })
            }),
            ({
                let settlement = old(self).read_settlement(*id, *ticket, reply);
                let record = old(self).block(*id);
                let index = old(self).block_index(*id);
                final(self).blocks@ == (match settlement {
                    ReadSettlement::Loaded => if awaits(record, *ticket) {
                        old(self).blocks@.update(
                            index,
                            (CacheBlockRecord {
                                arrays: Some(reply->Read_0),
                                tier: CacheTier::Host,
                                pending_disk: None,
                                ..record
                            }),
                        )
                    } else {
                        old(self).blocks@
                    },
                    ReadSettlement::Malformed => old(self).blocks@.update(
                        index,
                        (CacheBlockRecord { pending_disk: None, ..record }),
                    ),
                    ReadSettlement::Failed => forgotten(*old(self), *id, *ticket),
                    _ => old(self).blocks@,
                })
            }),
            ({
                let settlement = old(self).read_settlement(*id, *ticket, reply);
                let waited = joined || (submission matches Some(submission) && submission.joined);
                let activity = (if waited {
                    wait_activity(0)
                } else {
                    Activity::zero()
                }).plus(
                    if settlement is Failed {
                        failure_activity()
                    } else {
                        Activity::zero()
                    },
                );
                &&& final(self).report.activity() == old(self).report.activity().plus(activity)
                &&& final(self).report == with_submission(
                    old(self).report,
                    submission,
                ).with_activity(final(self).report.activity())
                &&& if waited || settlement is Failed {
                    final(self).credits(*old(self), Some(id.global_layer), activity)
                } else {
                    final(self).layer_activity == old(self).layer_activity
                        && final(self).layer_activity_overflow == old(
                        self,
                    ).layer_activity_overflow
                }
                &&& settlement is Missing ==> final(self).worker == old(self).worker
                &&& !(settlement is Missing) ==> final(self).worker.retired(
                    old(self).worker,
                    *ticket,
                )
            }),
            *final(self) == (CacheResidencyManager {
                blocks: final(self).blocks,
                worker: final(self).worker,
                layer_activity: final(self).layer_activity,
                layer_activity_overflow: final(self).layer_activity_overflow,
                report: final(self).report,
                ..*old(self)
            }),
    {
        let waited = joined || (match &submission {
            Some(submission) => submission.joined,
            None => false,
        });
        if waited {
            let mut delta = CacheLayerActivityCounters::none();
            delta.in_flight_waits = 1;
            self.note_activity(Some(id.global_layer), &delta);
        }
        let ghost noted = *self;
        self.note_submission(&submission);
        proof {
            assert(self.parts() == old(self).parts());
            assert(self.report.activity() == noted.report.activity());
            assert forall|id: CacheBlockId| #[trigger] self.has_block(id) == old(self).has_block(
                id,
            ) by {}
            assert(self.report =~= with_submission(old(self).report, submission).with_activity(
                self.report.activity(),
            ));
        }
        let stale = self.generation != ticket.key.generation;
        match reply {
            DiskReply::Read(arrays) => {
                if stale {
                    self.worker.retire(ticket);
                    return Err(
                        CacheResidencyError::DiskOperationCancelled {
                            generation: ticket.key.generation,
                        },
                    );
                }
                let index: usize = match self.find_block(id) {
                    Some(index) => index,
                    None => {
                        return Err(CacheResidencyError::MissingBlock(*id));
                    },
                };
                let ghost before = *self;
                proof {
                    old(self).block_index_is(index as int);
                    assert(before.blocks@[index as int].placed());
                    assert(before.blocks@[index as int].pending_disk matches Some(pending)
                        ==> before.worker.knows(pending));
                }
                let record = &self.blocks[index];
                let same = crate::cache_residency::block::same_shape(
                    &arrays.first().shape,
                    &record.first_shape,
                ) && crate::cache_residency::block::same_shape(
                    &arrays.second().shape,
                    &record.second_shape,
                ) && arrays.first().dtype == record.first_dtype && arrays.second().dtype
                    == record.second_dtype;
                if !same {
                    self.blocks[index].pending_disk = None;
                    proof {
                        let updated = CacheBlockRecord {
                            pending_disk: None,
                            ..before.blocks@[index as int]
                        };
                        assert(self.blocks@ =~= before.blocks@.update(index as int, updated));
                        before.record_update_keeps_wf(*self, index as int, updated);
                    }
                    self.worker.retire(ticket);
                    return Err(
                        CacheResidencyError::MalformedShard {
                            path: shard_path,
                            reason: "array shape or dtype does not match the manifest".to_owned(),
                        },
                    );
                }
                let awaited = match &record.pending_disk {
                    Some(pending) => pending.key == ticket.key,
                    None => false,
                };
                if awaited {
                    self.blocks[index].arrays = Some(arrays);
                    self.blocks[index].tier = CacheTier::Host;
                    self.blocks[index].pending_disk = None;
                    proof {
                        let updated = CacheBlockRecord {
                            arrays: Some(arrays),
                            tier: CacheTier::Host,
                            pending_disk: None,
                            ..before.blocks@[index as int]
                        };
                        assert(self.blocks@ =~= before.blocks@.update(index as int, updated));
                        before.record_update_keeps_wf(*self, index as int, updated);
                    }
                }
                self.worker.retire(ticket);
                Ok(())
            },
            DiskReply::Written => {
                self.worker.retire(ticket);
                Err(
                    CacheResidencyError::Runtime(
                        "cache disk worker returned an unexpected operation result".to_owned(),
                    ),
                )
            },
            DiskReply::Cancelled { generation } => {
                if stale {
                    self.worker.retire(ticket);
                    return Err(
                        CacheResidencyError::DiskOperationCancelled {
                            generation: ticket.key.generation,
                        },
                    );
                }
                self.fail_read(id, ticket);
                proof {
                    if waited {
                        old(self).credits_add_up(
                            noted,
                            *self,
                            id.global_layer,
                            wait_activity(0),
                            failure_activity(),
                        );
                    }
                }
                Err(CacheResidencyError::DiskOperationCancelled { generation })
            },
            DiskReply::Failed(error) => {
                self.fail_read(id, ticket);
                proof {
                    if waited {
                        old(self).credits_add_up(
                            noted,
                            *self,
                            id.global_layer,
                            wait_activity(0),
                            failure_activity(),
                        );
                    }
                }
                Err(error)
            },
        }
    }

    /// Counts a failed read and forgets that the block waits for it.
    fn fail_read(&mut self, id: &CacheBlockId, ticket: &DiskTicket)
        requires
            old(self).wf(),
            old(self).report.activity().plus(failure_activity()).fits(),
        ensures
            final(self).wf(),
            final(self).weighs_as(*old(self)),
            final(self).blocks@ == forgotten(*old(self), *id, *ticket),
            final(self).report.activity() == old(self).report.activity().plus(failure_activity()),
            final(self).report == old(self).report.with_activity(final(self).report.activity()),
            final(self).credits(*old(self), Some(id.global_layer), failure_activity()),
            final(self).worker.retired(old(self).worker, *ticket),
            *final(self) == (CacheResidencyManager {
                blocks: final(self).blocks,
                worker: final(self).worker,
                layer_activity: final(self).layer_activity,
                layer_activity_overflow: final(self).layer_activity_overflow,
                report: final(self).report,
                ..*old(self)
            }),
    {
        self.forget_pending(id, ticket);
        let ghost earlier = *self;
        self.note_activity(Some(id.global_layer), &failure_counters());
        assert(self.parts() == earlier.parts());
        self.worker.retire(ticket);
    }

    /// Records the observations of a submission.
    pub(crate) fn note_submission(&mut self, submission: &Option<DiskSubmissionOutcome>)
        requires
            old(self).wf(),
            old(self).report.queue_backpressure < u64::MAX,
        ensures
            final(self).wf(),
            *final(self) == (CacheResidencyManager {
                report: with_submission(old(self).report, *submission),
                ..*old(self)
            }),
    {
        match submission {
            Some(outcome) => {
                if self.report.queue_peak_occupancy < outcome.peak_occupancy {
                    self.report.queue_peak_occupancy = outcome.peak_occupancy;
                }
                if outcome.backpressure {
                    self.report.queue_backpressure = self.report.queue_backpressure + 1;
                }
            },
            None => {},
        }
        assert(self.report.activity() == old(self).report.activity());
    }
}

/// The blocks after a record stopped waiting for an operation.
pub open spec fn forgotten(
    manager: CacheResidencyManager,
    id: CacheBlockId,
    ticket: DiskTicket,
) -> Seq<CacheBlockRecord> {
    if manager.has_block(id) && awaits(manager.block(id), ticket) {
        manager.blocks@.update(
            manager.block_index(id),
            CacheBlockRecord { pending_disk: None, ..manager.block(id) },
        )
    } else {
        manager.blocks@
    }
}

/// Releasing a lease undoes it: the block has as many leases as before, and is where it
/// was.
pub proof fn released_leases_are_undone(record: CacheBlockRecord, clock: u64)
    requires
        record.leases < usize::MAX,
    ensures
        unleased(accessed(record, clock)).leases == record.leases,
        unleased(accessed(record, clock)).tier == record.tier,
        unleased(accessed(record, clock)).arrays == record.arrays,
        unleased(accessed(record, clock)).disk == record.disk,
        unleased(record).leases <= record.leases,
{
}

/// Peaks of the queue never fall, and a submission that found the queue full is counted
/// once.
pub proof fn submissions_are_observed_once(
    report: CacheResidencyReport,
    outcome: DiskSubmissionOutcome,
)
    requires
        report.queue_backpressure < u64::MAX,
    ensures
        with_submission(report, None) == report,
        ({
            let after = with_submission(report, Some(outcome));
            &&& after.queue_peak_occupancy >= report.queue_peak_occupancy
            &&& after.queue_peak_occupancy >= outcome.peak_occupancy
            &&& after.queue_peak_occupancy == report.queue_peak_occupancy
                || after.queue_peak_occupancy == outcome.peak_occupancy
            &&& outcome.backpressure ==> after.queue_backpressure == report.queue_backpressure + 1
            &&& !outcome.backpressure ==> after.queue_backpressure == report.queue_backpressure
        }),
{
}

/// A failed operation is told as it failed, and a cancelled one as cancelled in its
/// generation.
pub proof fn failures_are_told_as_they_came(reply: DiskReply)
    ensures
        reply matches DiskReply::Failed(error) ==> reply_failure(reply) == error@,
        reply matches DiskReply::Cancelled { generation } ==> reply_failure(reply)
            == CacheFailure::DiskOperationCancelled(generation),
{
}

} // verus!
