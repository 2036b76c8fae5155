//! Rebalancing steps, commits of background writes and observations.

use vstd::prelude::*;

use crate::cache_residency::block::{CacheBlockId, CacheTier};
use crate::cache_residency::catalog::{CacheBlockRecord, CacheResidencyManager};
use crate::cache_residency::demotion::{
    DiskWriteResult, HostDemotionProgress, RebalanceDecision, RebalanceStep,
};
use crate::cache_residency::error::{CacheFailure, CacheResidencyError};
use crate::cache_residency::stats::{
    Activity, CacheLayerActivityCounters, CacheResidencyReport,
};
use crate::cache_residency::worker::{DiskOperationKey, DiskOperationKind, DiskTicket};

verus! {

/// A rebalancing decision that can be carried out.
enum Decision {
    Refuse(CacheResidencyError, Option<usize>),
    DropToDisk(CacheBlockId),
    Copy(CacheBlockId),
    Demote(CacheBlockId, bool),
    Await(DiskTicket),
    Settled,
}

impl Decision {
    spec fn model(self) -> RebalanceDecision {
        match self {
            Decision::Refuse(error, layer) => RebalanceDecision::Refuse(error@, layer),
            Decision::DropToDisk(id) => RebalanceDecision::DropToDisk(id),
            Decision::Copy(id) => RebalanceDecision::Copy(id),
            Decision::Demote(id, wait) => RebalanceDecision::Demote(id, wait),
            Decision::Await(ticket) => RebalanceDecision::Await(ticket),
            Decision::Settled => RebalanceDecision::Settled,
        }
    }
}

/// Operating-system usage of the process.
#[derive(Debug, Clone, Copy, PartialEq, Eq, Structural)]
pub struct ProcessUsage {
    /// Peak resident-set size in the system's unit.
    pub max_resident: i64,
    /// Bytes of that unit.
    pub resident_unit: u64,
    /// Minor page faults.
    pub minor_faults: i64,
    /// Major page faults.
    pub major_faults: i64,
}

/// A count that the system reports, with negative values read as zero.
pub open spec fn nonnegative(value: i64) -> int {
    if value < 0 {
        0
    } else {
        value as int
    }
}

impl CacheResidencyManager {
    /// Whether this manager is `before` with its report brought up to date.
    pub open spec fn refreshed(self, before: CacheResidencyManager) -> bool {
        &&& self == (CacheResidencyManager { report: self.report, ..before })
        &&& self.reports(before.report)
    }

    /// Whether activity, if there was any, was counted in the totals and for its layer, and
    /// the report was then brought up to date with this catalog.
    pub open spec fn counted(
        self,
        before: CacheResidencyManager,
        noted: Option<(usize, Activity)>,
    ) -> bool {
        match noted {
            Some((layer, delta)) => {
                &&& self.credits(before, Some(layer), delta)
                &&& self.report.counts(before.report, before.report.activity().plus(delta))
                &&& self.reports(
                    before.report.with_activity(before.report.activity().plus(delta)),
                )
            },
            None => {
                &&& self.layer_activity == before.layer_activity
                &&& self.layer_activity_overflow == before.layer_activity_overflow
                &&& self.report.counts(before.report, before.report.activity())
                &&& self.reports(before.report)
            },
        }
    }

    /// Whether the counters of one rebalancing step cannot overflow.
    pub open spec fn can_count_step(self) -> bool {
        &&& self.report.activity().plus(
            crate::cache_residency::lease::failure_activity(),
        ).plus(crate::cache_residency::demotion::disk_demotion_activity()).fits()
        &&& self.worker.completions@.len() < usize::MAX
    }

    fn pick_for_eviction(
        &self,
        tier: CacheTier,
        required: Option<&CacheBlockId>,
        recent_per_layer: usize,
    ) -> (choice: Option<CacheBlockId>)
        requires
            self.wf(),
        ensures
            choice == self.eviction_pick(
                tier,
                crate::cache_residency::eviction::copied_id(required),
                recent_per_layer,
            ),
            choice matches Some(id) ==> self.has_block(id) && self.block(id).tier == tier
                && self.block(id).leases == 0 && self.block(id).pending_disk is None,
    {
        let choice = self.eviction_candidate(tier, required, recent_per_layer);
        proof {
            let wanted = crate::cache_residency::eviction::copied_id(required);
            let picked = self.eviction_pick(tier, wanted, recent_per_layer);
            assert(self.eviction_choice(tier, wanted, recent_per_layer, choice));
            assert(self.eviction_choice(tier, wanted, recent_per_layer, picked));
            crate::cache_residency::eviction::eviction_is_deterministic(
                *self,
                tier,
                wanted,
                recent_per_layer,
                choice,
                picked,
            );
            if choice is Some {
                let id = choice->Some_0;
                let blocks = self.blocks@;
                let i = choose|i: int|
                    {
                        &&& 0 <= i < blocks.len()
                        &&& (#[trigger] blocks[i]).id == id
                        &&& crate::cache_residency::eviction::evictable(
                            blocks,
                            tier,
                            wanted,
                            recent_per_layer,
                            blocks[i],
                        )
                        &&& forall|j: int|
                            0 <= j < blocks.len() && j != i
                                && crate::cache_residency::eviction::evictable(
                                blocks,
                                tier,
                                wanted,
                                recent_per_layer,
                                #[trigger] blocks[j],
                            ) ==> crate::cache_residency::eviction::leaves_before(
                                self.options@.eviction_policy,
                                blocks[i],
                                blocks[j],
                            )
                    };
                self.block_index_is(i);
            }
        }
        choice
    }

    fn find_write_in_flight(&self) -> (ticket: Option<DiskTicket>)
        ensures
            ticket == self.write_in_flight(),
    {
        if self.host_write_reservations.len() > 0 {
            return Some(self.host_write_reservations[0].ticket);
        }
        let mut index: usize = 0;
        proof {
            assert(self.blocks@.skip(0) =~= self.blocks@);
        }
        while index < self.blocks.len()
            invariant
                self.host_write_reservations@.len() == 0,
                index <= self.blocks@.len(),
                crate::cache_residency::demotion::first_writing(self.blocks@)
                    == crate::cache_residency::demotion::first_writing(
                    self.blocks@.skip(index as int),
                ),
            decreases self.blocks@.len() - index,
        {
            let ghost rest = self.blocks@.skip(index as int);
            assert(rest[0] == self.blocks@[index as int]);
            assert(rest.drop_first() =~= self.blocks@.skip(index + 1));
            match &self.blocks[index].pending_disk {
                Some(ticket) => {
                    if ticket.key.kind == DiskOperationKind::Write {
                        return Some(*ticket);
                    }
                },
                None => {},
            }
            index = index + 1;
        }
        None
    }

    /// Makes one rebalancing decision from a current report.
    fn decide(&self, required: Option<&CacheBlockId>) -> (decision: Decision)
        requires
            self.wf(),
            self.background_disk_error is None,
            self.report.current_device_bytes == self.device_bytes(),
            self.report.current_host_bytes == self.host_bytes(),
        ensures
            decision.model() == self.rebalance_decision(
                crate::cache_residency::eviction::copied_id(required),
            ),
            match decision {
                Decision::DropToDisk(id) => self.has_block(id) && self.block(id).disk is Some,
                Decision::Copy(id) => self.has_block(id),
                Decision::Demote(id, wait) => self.has_block(id),
                _ => true,
            },
    {
        let device_budget: u64 = self.options.device_budget_bytes();
        let host_budget: u64 = self.options.host_budget_bytes();
        let device_bytes: u64 = self.report.current_device_bytes;
        let host_bytes: u64 = self.report.current_host_bytes;
        let layer: Option<usize> = match required {
            Some(id) => Some(id.global_layer),
            None => None,
        };
        if device_bytes > device_budget {
            let id = match self.pick_for_eviction(
                CacheTier::Device,
                required,
                self.options.recent_device_blocks(),
            ) {
                Some(id) => id,
                None => {
                    return Decision::Refuse(
                        CacheResidencyError::BudgetExceeded {
                            tier: CacheTier::Device,
                            required: device_bytes,
                            budget: device_budget,
                        },
                        layer,
                    );
                },
            };
            let index: usize = match self.find_block(&id) {
                Some(index) => index,
                None => 0,
            };
            if self.blocks[index].disk.is_some() {
                return Decision::DropToDisk(id);
            }
            let bytes: u64 = self.blocks[index].bytes;
            let needed: u64 = host_bytes.saturating_add(bytes);
            if needed <= host_budget {
                return Decision::Copy(id);
            }
            if bytes > host_budget {
                return Decision::Refuse(
                    CacheResidencyError::BudgetExceeded {
                        tier: CacheTier::Host,
                        required: bytes,
                        budget: host_budget,
                    },
                    Some(id.global_layer),
                );
            }
            match self.pick_for_eviction(CacheTier::Host, required, 0) {
                Some(host) => {
                    return Decision::Demote(host, true);
                },
                None => {},
            }
            match self.find_write_in_flight() {
                Some(ticket) => {
                    return Decision::Await(ticket);
                },
                None => {},
            }
            let refusal = if self.options.disk_budget().is_none() {
                CacheResidencyError::LiveDiskRequired { required: needed, budget: host_budget }
            } else {
                CacheResidencyError::BudgetExceeded {
                    tier: CacheTier::Host,
                    required: needed,
                    budget: host_budget,
                }
            };
            return Decision::Refuse(refusal, Some(id.global_layer));
        }
        let full = self.options.disk_budget().is_some() && host_bytes != 0 && host_bytes
            >= host_budget;
        if host_bytes > host_budget {
            match self.pick_for_eviction(CacheTier::Host, required, 0) {
                Some(host) => {
                    return Decision::Demote(host, true);
                },
                None => {},
            }
            match self.find_write_in_flight() {
                Some(ticket) => {
                    return Decision::Await(ticket);
                },
                None => {},
            }
            return Decision::Refuse(
                CacheResidencyError::BudgetExceeded {
                    tier: CacheTier::Host,
                    required: host_bytes,
                    budget: host_budget,
                },
                layer,
            );
        }
        if full {
            match self.pick_for_eviction(CacheTier::Host, required, 0) {
                Some(host) => {
                    return Decision::Demote(host, false);
                },
                None => {},
            }
        }
        Decision::Settled
    }

    /// Makes one rebalancing decision and carries it out as far as the catalog alone can.
    #[verifier::rlimit(60)]
    pub fn rebalance_step(&mut self, required: Option<&CacheBlockId>) -> (outcome: Result<
        RebalanceStep,
        CacheResidencyError,
    >)
        requires
            old(self).wf(),
            old(self).fits(),
            old(self).room_for_write(),
            old(self).can_count_step(),
        ensures
            final(self).wf(),
            final(self).fits(),
            ({
                let wanted = crate::cache_residency::eviction::copied_id(required);
                let decision = old(self).rebalance_decision(wanted);
                match decision {
                    RebalanceDecision::Background(message) => {
                        &&& outcome matches Err(error) && error@ == CacheFailure::Runtime(
                            "background cache disk write failed: "@ + message,
                        )
                        &&& *final(self) == (CacheResidencyManager {
                            background_disk_error: None,
                            ..*old(self)
                        })
                    },
                    RebalanceDecision::Refuse(failure, layer) => {
                        &&& outcome matches Err(error) && error@ == failure
                        &&& final(self).report.counts(
                            old(self).report,
                            old(self).report.activity().plus(
                                crate::cache_residency::lease::failure_activity(),
                            ),
                        )
                        &&& exists|before: CacheResidencyManager|
                            before.refreshed(*old(self)) && #[trigger] final(self).attributes(
                                before,
                                layer,
                                crate::cache_residency::lease::failure_activity(),
                            )
                    },
                    RebalanceDecision::DropToDisk(id) => {
                        &&& outcome == Ok::<_, CacheResidencyError>(RebalanceStep::Continue)
                        &&& final(self).blocks@ == old(self).blocks@.update(
                            old(self).block_index(id),
                            crate::cache_residency::demotion::on_disk(old(self).block(id)),
                        )
                        &&& final(self).report.counts(
                            old(self).report,
                            old(self).report.activity().plus(
                                crate::cache_residency::demotion::disk_demotion_activity(),
                            ),
                        )
                        &&& exists|before: CacheResidencyManager|
                            #[trigger] before.refreshed(*old(self)) && final(self).attributes(
                                (CacheResidencyManager { blocks: final(self).blocks, ..before }),
                                Some(id.global_layer),
                                crate::cache_residency::demotion::disk_demotion_activity(),
                            )
                    },
                    RebalanceDecision::Copy(id) => {
                        &&& outcome == Ok::<_, CacheResidencyError>(
                            RebalanceStep::CopyToHost { id },
                        )
                        &&& final(self).refreshed(*old(self))
                    },
                    RebalanceDecision::Demote(id, wait) => exists|
                        before: CacheResidencyManager,
                        progress: Result<HostDemotionProgress, CacheResidencyError>,
                    |
                        {
                            &&& before.refreshed(*old(self))
                            &&& #[trigger] final(self).demoted(before, id, progress)
                            &&& step_after_demotion(progress, wait, outcome)
                        },
                    RebalanceDecision::Await(ticket) => {
                        &&& outcome == Ok::<_, CacheResidencyError>(
                            RebalanceStep::AwaitWrite { ticket },
                        )
                        &&& final(self).refreshed(*old(self))
                    },
                    RebalanceDecision::Settled => {
                        &&& outcome == Ok::<_, CacheResidencyError>(RebalanceStep::Done)
                        &&& final(self).refreshed(*old(self))
                    },
                }
            }),
    {
        match self.background_disk_error.take() {
            Some(error) => {
                assert(self.parts() == old(self).parts());
                return Err(
                    crate::cache_residency::truncate::background_failure(error.as_str()),
                );
            },
            None => {},
        }
        assert(*self == *old(self));
        self.update_report_totals();
        let ghost before = *self;
        proof {
            assert(self.parts() == old(self).parts());
            let wanted = crate::cache_residency::eviction::copied_id(required);
            decision_ignores_report(*old(self), *self, wanted);
            assert(self.report.current_device_bytes == self.report.holdings().current_device_bytes);
            assert(self.report.current_host_bytes == self.report.holdings().current_host_bytes);
        }
        match self.decide(required) {
            Decision::Refuse(error, layer) => {
                self.note_activity(layer, &crate::cache_residency::lease::failure_counters());
                assert(self.parts() == before.parts());
                assert(before.refreshed(*old(self)) && self.attributes(
                    before,
                    layer,
                    crate::cache_residency::lease::failure_activity(),
                ));
                Err(error)
            },
            Decision::DropToDisk(id) => {
                match self.find_block(&id) {
                    Some(index) => {
                        let ghost record = self.blocks@[index as int];
                        self.blocks[index].arrays = None;
                        self.blocks[index].tier = CacheTier::Disk;
                        proof {
                            old(self).block_index_is(index as int);
                            let dropped = crate::cache_residency::demotion::on_disk(record);
                            assert(before.blocks@[index as int].pending_disk matches Some(ticket)
                                ==> before.worker.knows(ticket));
                            assert(self.blocks@ =~= before.blocks@.update(index as int, dropped));
                            before.record_update_keeps_wf(*self, index as int, dropped);
                        }
                        let mut delta = CacheLayerActivityCounters::none();
                        delta.disk_demotions = 1;
                        let ghost earlier = *self;
                        self.note_activity(Some(id.global_layer), &delta);
                        assert(self.parts() == earlier.parts());
                        assert(earlier == (CacheResidencyManager { blocks: self.blocks, ..before }));
                        assert(before.refreshed(*old(self)));
                    },
                    None => {},
                }
                Ok(RebalanceStep::Continue)
            },
            Decision::Copy(id) => Ok(RebalanceStep::CopyToHost { id }),
            Decision::Demote(id, wait) => {
                let progress = self.begin_host_demotion(&id);
                proof {
                    assert(before.refreshed(*old(self)));
                    assert(self.demoted(before, id, progress));
                }
                let ghost settled = progress;
                let outcome = match progress {
                    Ok(HostDemotionProgress::Retry) => Ok(
                        if wait {
                            RebalanceStep::Continue
                        } else {
                            RebalanceStep::Done
                        },
                    ),
                    Ok(HostDemotionProgress::Freed) => Ok(
                        if wait {
                            RebalanceStep::Continue
                        } else {
                            RebalanceStep::Done
                        },
                    ),
                    Ok(HostDemotionProgress::Pending { ticket, send }) => Ok(
                        RebalanceStep::Write { ticket, send, wait },
                    ),
                    Err(error) => Err(error),
                };
                assert(step_after_demotion(settled, wait, outcome));
                outcome
            },
            Decision::Await(ticket) => Ok(RebalanceStep::AwaitWrite { ticket }),
            Decision::Settled => Ok(RebalanceStep::Done),
        }
    }

    /// Answers whether there is room for more parts, bytes and tokens in the catalog.
    pub fn has_room(&self, parts: u64, bytes: u64, tokens: u64) -> (room: bool)
        ensures
            room == self.room_for(parts as int, bytes as int, tokens as int),
    {
        let ghost all = self.parts();
        let ghost tails = self.tails@.len() as int;
        let ghost blocks = self.blocks@.len() as int;
        let count: u128 = self.tails.len() as u128 + self.blocks.len() as u128
            + self.host_write_reservations.len() as u128;
        if count + parts as u128 > u64::MAX as u128 {
            return false;
        }
        let mut byte_sum: u64 = bytes;
        let mut token_sum: u64 = tokens;
        let mut index: usize = 0;
        proof {
            crate::cache_residency::report::parts_are_modest(*self);
            assert(all.take(0) =~= Seq::empty());
        }
        while index < self.tails.len()
            invariant
                all == self.parts(),
                forall|i: int|
                    0 <= i < all.len() ==> crate::cache_residency::report::modest(
                        #[trigger] all[i],
                    ),
                index <= self.tails@.len(),
                byte_sum == bytes + crate::cache_residency::report::bytes_of(
                    all.take(index as int),
                ),
                token_sum == tokens + crate::cache_residency::report::tokens_of(
                    all.take(index as int),
                ),
            decreases self.tails@.len() - index,
        {
            let tail = self.tails[index];
            proof {
                assert(all.take(index + 1).drop_last() =~= all.take(index as int));
                assert(all[index as int] == crate::cache_residency::report::tail_part(tail));
                crate::cache_residency::report::prefix_is_smaller(all, index + 1);
            }
            let end: u64 = if tail.end > 0 {
                tail.end as u64
            } else {
                0
            };
            match (byte_sum.checked_add(tail.bytes), token_sum.checked_add(end)) {
                (Some(more_bytes), Some(more_tokens)) => {
                    byte_sum = more_bytes;
                    token_sum = more_tokens;
                },
                _ => {
                    return false;
                },
            }
            index = index + 1;
        }
        let mut index: usize = 0;
        while index < self.blocks.len()
            invariant
                all == self.parts(),
                forall|i: int|
                    0 <= i < all.len() ==> crate::cache_residency::report::modest(
                        #[trigger] all[i],
                    ),
                tails == self.tails@.len(),
                index <= self.blocks@.len(),
                byte_sum == bytes + crate::cache_residency::report::bytes_of(
                    all.take(tails + index),
                ),
                token_sum == tokens + crate::cache_residency::report::tokens_of(
                    all.take(tails + index),
                ),
            decreases self.blocks@.len() - index,
        {
            let id = self.blocks[index].id;
            proof {
                let at = tails + index;
                assert(all.take(at + 1).drop_last() =~= all.take(at));
                assert(all[at] == crate::cache_residency::report::record_part(
                    self.host_write_reservations@,
                    self.blocks@[index as int],
                ));
                crate::cache_residency::report::prefix_is_smaller(all, at + 1);
            }
            let end: u64 = if id.end > 0 {
                id.end as u64
            } else {
                0
            };
            match (byte_sum.checked_add(self.blocks[index].bytes), token_sum.checked_add(end)) {
                (Some(more_bytes), Some(more_tokens)) => {
                    byte_sum = more_bytes;
                    token_sum = more_tokens;
                },
                _ => {
                    return false;
                },
            }
            index = index + 1;
        }
        let mut index: usize = 0;
        while index < self.host_write_reservations.len()
            invariant
                all == self.parts(),
                forall|i: int|
                    0 <= i < all.len() ==> crate::cache_residency::report::modest(
                        #[trigger] all[i],
                    ),
                tails == self.tails@.len(),
                blocks == self.blocks@.len(),
                index <= self.host_write_reservations@.len(),
                byte_sum == bytes + crate::cache_residency::report::bytes_of(
                    all.take(tails + blocks + index),
                ),
                token_sum == tokens + crate::cache_residency::report::tokens_of(
                    all.take(tails + blocks + index),
                ),
            decreases self.host_write_reservations@.len() - index,
        {
            proof {
                let at = tails + blocks + index;
                assert(all.take(at + 1).drop_last() =~= all.take(at));
                assert(all[at] == crate::cache_residency::report::reservation_part(
                    self.blocks@,
                    self.host_write_reservations@[index as int],
                ));
                crate::cache_residency::report::prefix_is_smaller(all, at + 1);
            }
            match byte_sum.checked_add(self.host_write_reservations[index].bytes) {
                Some(more_bytes) => {
                    byte_sum = more_bytes;
                },
                None => {
                    return false;
                },
            }
            index = index + 1;
        }
        assert(all.take(tails + blocks + index) =~= all);
        true
    }

    /// Answers whether there is room to reserve host bytes for a write of any block.
    pub fn has_room_for_write(&self) -> (room: bool)
        ensures
            room == self.room_for_write(),
    {
        let mut largest: u64 = 0;
        let mut index: usize = 0;
        while index < self.blocks.len()
            invariant
                index <= self.blocks@.len(),
                forall|i: int| 0 <= i < index ==> (#[trigger] self.blocks@[i]).bytes <= largest,
                largest == 0 || exists|i: int|
                    0 <= i < index && (#[trigger] self.blocks@[i]).bytes == largest,
            decreases self.blocks@.len() - index,
        {
            if self.blocks[index].bytes > largest {
                largest = self.blocks[index].bytes;
                assert(self.blocks@[index as int].bytes == largest);
            }
            index = index + 1;
        }
        self.has_room(1, largest, 0)
    }

    /// Records the scan of a layer's blocks by full attention.
    pub fn record_attention_scan(
        &mut self,
        global_layer: usize,
        prefill: bool,
        blocks: u64,
        bytes: u64,
        scratch_bytes: u64,
    )
        requires
            old(self).wf(),
            old(self).report.activity().plus(
                scan_activity(prefill, blocks, bytes, scratch_bytes),
            ).fits(),
        ensures
            final(self).wf(),
            final(self).attributes(
                *old(self),
                Some(global_layer),
                scan_activity(prefill, blocks, bytes, scratch_bytes),
            ),
    {
        let mut delta = CacheLayerActivityCounters::none();
        if prefill {
            delta.prefill_full_attention_blocks = blocks;
            delta.prefill_full_attention_bytes = bytes;
        } else {
            delta.decode_full_attention_blocks = blocks;
            delta.decode_full_attention_bytes = bytes;
        }
        delta.attention_scratch_peak_bytes = scratch_bytes;
        self.note_activity(Some(global_layer), &delta);
    }

    /// Returns a bounded aggregate snapshot without retaining per-block history. Process
    /// usage is recorded where the options ask for it.
    pub fn report(&mut self, usage: Option<ProcessUsage>) -> (report: &CacheResidencyReport)
        requires
            old(self).wf(),
            old(self).fits(),
        ensures
            final(self).wf(),
            *report == final(self).report,
            ({
                let sampled = old(self).options@.sample_process && usage is Some;
                let usage = usage->Some_0;
                final(self).reports(
                    (CacheResidencyReport {
                        process_rss_bytes: if sampled {
                            Some(
                                crate::cache_residency::demotion::saturated(
                                    nonnegative(usage.max_resident) * usage.resident_unit,
                                ),
                            )
                        } else {
                            old(self).report.process_rss_bytes
                        },
                        process_minor_page_faults: if sampled {
                            Some(nonnegative(usage.minor_faults) as u64)
                        } else {
                            old(self).report.process_minor_page_faults
                        },
                        process_major_page_faults: if sampled {
                            Some(nonnegative(usage.major_faults) as u64)
                        } else {
                            old(self).report.process_major_page_faults
                        },
                        ..old(self).report
                    }),
                )
            }),
            *final(self) == (CacheResidencyManager { report: final(self).report, ..*old(self) }),
    {
        if self.options.samples_process() {
            match usage {
                Some(usage) => {
                    let resident: u64 = if usage.max_resident < 0 {
                        0
                    } else {
                        usage.max_resident as u64
                    };
                    let bytes: u64 = match resident.checked_mul(usage.resident_unit) {
                        Some(bytes) => bytes,
                        None => u64::MAX,
                    };
                    self.report.process_rss_bytes = Some(bytes);
                    self.report.process_minor_page_faults = Some(
                        if usage.minor_faults < 0 {
                            0
                        } else {
                            usage.minor_faults as u64
                        },
                    );
                    self.report.process_major_page_faults = Some(
                        if usage.major_faults < 0 {
                            0
                        } else {
                            usage.major_faults as u64
                        },
                    );
                },
                None => {},
            }
        }
        assert(self.parts() == old(self).parts());
        assert(self.report.activity() == old(self).report.activity());
        self.update_report_totals();
        &self.report
    }

    /// Records what came of a background write. Answers a shard file that belongs to an
    /// ended generation and is to be deleted.
    #[verifier::rlimit(60)]
    pub fn reconcile(&mut self, key: &DiskOperationKey, result: DiskWriteResult) -> (cleanup:
        Option<String>)
        requires
            old(self).wf(),
            old(self).fits(),
            old(self).has_block(key.id) ==> old(self).report.activity().plus(
                commit_activity(old(self).block(key.id).bytes, true),
            ).fits(),
            old(self).report.activity().plus(
                crate::cache_residency::lease::failure_activity(),
            ).fits(),
        ensures
            final(self).wf(),
            ({
                let stale = old(self).generation != key.generation;
                let record = old(self).block(key.id);
                let index = old(self).block_index(key.id);
                let awaited = old(self).has_block(key.id) && (record.pending_disk matches Some(
                    ticket,
                ) && ticket.key == *key);
                let forgotten = if awaited {
                    old(self).blocks@.update(
                        index,
                        (CacheBlockRecord { pending_disk: None, ..record }),
                    )
                } else {
                    old(self).blocks@
                };
                let failed = crate::cache_residency::lease::failure_activity();
                match result {
                    DiskWriteResult::Written(location) => {
                        let moves = record.tier == CacheTier::Host && record.leases == 0;
                        let committed = CacheBlockRecord {
                            disk: Some(location),
                            pending_disk: None,
                            ..record
                        };
                        &&& cleanup == (if stale && !location.persistent {
                            Some(location.path)
                        } else {
                            None
                        })
                        &&& final(self).background_disk_error == old(self).background_disk_error
                        &&& final(self).blocks@ == (if stale || !awaited {
                            old(self).blocks@
                        } else if moves {
                            old(self).blocks@.update(
                                index,
                                crate::cache_residency::demotion::on_disk(committed),
                            )
                        } else {
                            old(self).blocks@.update(index, committed)
                        })
                        &&& stale || !awaited ==> final(self).counted(*old(self), None)
                        &&& !stale && awaited ==> final(self).counted(
                            *old(self),
                            Some((key.id.global_layer, commit_activity(record.bytes, moves))),
                        )
                    },
                    DiskWriteResult::Unexpected => {
                        &&& cleanup is None
                        &&& final(self).background_disk_error matches Some(message) && message@
                            == "cache disk worker returned an unexpected write result"@
                        &&& final(self).blocks@ == old(self).blocks@
                        &&& final(self).counted(*old(self), Some((key.id.global_layer, failed)))
                    },
                    DiskWriteResult::Failed(message) => {
                        &&& cleanup is None
                        &&& stale ==> final(self).background_disk_error == old(
                            self,
                        ).background_disk_error && final(self).blocks@ == old(self).blocks@
                            && final(self).counted(*old(self), None)
                        &&& !stale ==> final(self).background_disk_error == Some(message)
                            && final(self).blocks@ == forgotten && final(self).counted(
                            *old(self),
                            Some((key.id.global_layer, failed)),
                        )
                    },
                }
            }),
            *final(self) == (CacheResidencyManager {
                background_disk_error: final(self).background_disk_error,
                blocks: final(self).blocks,
                layer_activity: final(self).layer_activity,
                layer_activity_overflow: final(self).layer_activity_overflow,
                report: final(self).report,
                ..*old(self)
            }),
    {
        let stale = self.generation != key.generation;
        let layer: usize = key.id.global_layer;
        match result {
            DiskWriteResult::Written(location) => {
                if stale {
                    let cleanup = if location.persistent {
                        None
                    } else {
                        Some(location.path)
                    };
                    self.update_report_totals();
                    return cleanup;
                }
                match self.find_block(&key.id) {
                    Some(index) => {
                        let ghost record = self.blocks@[index as int];
                        proof {
                            assert(record.placed());
                        }
                        let awaited = match &self.blocks[index].pending_disk {
                            Some(ticket) => ticket.key == *key,
                            None => false,
                        };
                        if awaited {
                            let ghost stored = location;
                            let bytes: u64 = self.blocks[index].bytes;
                            let moves = self.blocks[index].tier == CacheTier::Host
                                && self.blocks[index].leases == 0;
                            self.blocks[index].disk = Some(location);
                            self.blocks[index].pending_disk = None;
                            if moves {
                                self.blocks[index].arrays = None;
                                self.blocks[index].tier = CacheTier::Disk;
                            }
                            proof {
                                let committed = CacheBlockRecord {
                                    disk: Some(stored),
                                    pending_disk: None,
                                    ..record
                                };
                                let updated = if moves {
                                    crate::cache_residency::demotion::on_disk(committed)
                                } else {
                                    committed
                                };
                                assert(self.blocks@ =~= old(self).blocks@.update(
                                    index as int,
                                    updated,
                                ));
                                old(self).record_update_keeps_wf(*self, index as int, updated);
                            }
                            let mut delta = CacheLayerActivityCounters::none();
                            delta.transfer_bytes = bytes;
                            if moves {
                                delta.disk_demotions = 1;
                            }
                            let ghost earlier = *self;
                            self.note_activity(Some(layer), &delta);
                            assert(self.parts() == earlier.parts());
                        }
                    },
                    None => {},
                }
                self.update_report_totals();
                None
            },
            DiskWriteResult::Unexpected => {
                self.note_activity(
                    Some(layer),
                    &crate::cache_residency::lease::failure_counters(),
                );
                self.background_disk_error = Some(
                    "cache disk worker returned an unexpected write result".to_owned(),
                );
                assert(self.parts() == old(self).parts());
                self.update_report_totals();
                None
            },
            DiskWriteResult::Failed(message) => {
                if stale {
                    self.update_report_totals();
                    return None;
                }
                let ticket = DiskTicket { key: *key, operation: 0 };
                self.forget_pending(&key.id, &ticket);
                let ghost earlier = *self;
                self.note_activity(
                    Some(layer),
                    &crate::cache_residency::lease::failure_counters(),
                );
                self.background_disk_error = Some(message);
                assert(self.parts() == earlier.parts());
                self.update_report_totals();
                None
            },
        }
    }

    /// Gives back the host bytes of a write whose task dropped its arrays. Another
    /// reservation for the same write stays.
    pub fn release_reservation(&mut self, key: &DiskOperationKey, reservation_id: u64)
        requires
            old(self).wf(),
            old(self).fits(),
        ensures
            final(self).wf(),
            ({
                let reservations = old(self).host_write_reservations@;
                let held = crate::cache_residency::report::reserved(reservations, *key)
                    && reservations[crate::cache_residency::demotion::reservation_index(
                    reservations,
                    *key,
                )].reservation_id == reservation_id;
                if held {
                    &&& final(self).host_write_reservations@
                        == crate::cache_residency::demotion::without_reservation(
                        reservations,
                        *key,
                    )
                    &&& final(self).blocks@ == crate::cache_residency::lease::forgotten(
                        *old(self),
                        key.id,
                        (DiskTicket { key: *key, operation: 0 }),
                    )
                    &&& final(self).reports(old(self).report)
                    &&& *final(self) == (CacheResidencyManager {
                        blocks: final(self).blocks,
                        host_write_reservations: final(self).host_write_reservations,
                        report: final(self).report,
                        ..*old(self)
                    })
                } else {
                    *final(self) == *old(self)
                }
            }),
    {
        let mut index: usize = 0;
        while index < self.host_write_reservations.len()
            invariant
                *self == *old(self),
                self.wf(),
                self.fits(),
                index <= self.host_write_reservations@.len(),
                forall|i: int|
                    0 <= i < index ==> (#[trigger] self.host_write_reservations@[i]).ticket.key
                        != *key,
            decreases self.host_write_reservations@.len() - index,
        {
            if self.host_write_reservations[index].ticket.key == *key {
                proof {
                    let reservations = self.host_write_reservations@;
                    assert(reservations[index as int].ticket.key == *key);
                    let found = crate::cache_residency::demotion::reservation_index(
                        reservations,
                        *key,
                    );
                    if found < index {
                        assert(reservations[found].ticket.key != *key);
                    }
                    if found > index {
                        assert(reservations[index as int].ticket.key
                            != reservations[found].ticket.key);
                    }
                }
                if self.host_write_reservations[index].reservation_id != reservation_id {
                    return ;
                }
                let ticket = DiskTicket { key: *key, operation: 0 };
                self.forget_pending(&key.id, &ticket);
                let ghost earlier = *self;
                self.drop_reservation(key);
                self.update_report_totals();
                return ;
            }
            index = index + 1;
        }
    }
}

/// What a rebalancing step answers after a demotion.
pub open spec fn step_after_demotion(
    progress: Result<HostDemotionProgress, CacheResidencyError>,
    wait: bool,
    outcome: Result<RebalanceStep, CacheResidencyError>,
) -> bool {
    match progress {
        Ok(HostDemotionProgress::Pending { ticket, send }) => outcome == Ok::<
            _,
            CacheResidencyError,
        >(RebalanceStep::Write { ticket, send, wait }),
        Ok(_) => outcome == Ok::<_, CacheResidencyError>(
            if wait {
                RebalanceStep::Continue
            } else {
                RebalanceStep::Done
            },
        ),
        Err(error) => outcome == Err::<RebalanceStep, _>(error),
    }
}

/// Activity of one full-attention scan.
pub open spec fn scan_activity(
    prefill: bool,
    blocks: u64,
    bytes: u64,
    scratch_bytes: u64,
) -> Activity {
    let scanned = Activity {
        attention_scratch_peak_bytes: scratch_bytes as int,
        ..Activity::zero()
    };
    if prefill {
        Activity {
            prefill_full_attention_blocks: blocks as int,
            prefill_full_attention_bytes: bytes as int,
            ..scanned
        }
    } else {
        Activity {
            decode_full_attention_blocks: blocks as int,
            decode_full_attention_bytes: bytes as int,
            ..scanned
        }
    }
}

/// Activity of one committed background write.
pub open spec fn commit_activity(bytes: u64, moves: bool) -> Activity {
    Activity {
        transfer_bytes: bytes as int,
        disk_demotions: if moves {
            1
        } else {
            0
        },
        ..Activity::zero()
    }
}

/// Decisions depend on the catalog and the options, not on the report.
proof fn decision_ignores_report(
    before: CacheResidencyManager,
    after: CacheResidencyManager,
    required: Option<CacheBlockId>,
)
    requires
        after == (CacheResidencyManager { report: after.report, ..before }),
    ensures
        after.rebalance_decision(required) == before.rebalance_decision(required),
        after.device_bytes() == before.device_bytes(),
        after.host_bytes() == before.host_bytes(),
{
    assert(after.parts() == before.parts());
    assert forall|id: CacheBlockId| #[trigger] after.block(id) == before.block(id) by {}
}

/// A settled catalog meets its device and host budgets.
pub proof fn settled_catalog_meets_budgets(
    manager: CacheResidencyManager,
    required: Option<CacheBlockId>,
)
    requires
        manager.rebalance_decision(required) is Settled || (manager.rebalance_decision(
            required,
        ) matches RebalanceDecision::Demote(id, wait) && !wait),
    ensures
        manager.device_bytes() <= manager.options@.device_budget_bytes,
        manager.host_bytes() <= manager.options@.host_budget_bytes,
{
}

} // verus!
