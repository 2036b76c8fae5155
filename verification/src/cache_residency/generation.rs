//! Generation changes: removal, truncation, discarding and clearing of blocks.

use vstd::prelude::*;

use crate::cache_residency::block::{CacheBlockId, CacheRepresentation};
use crate::cache_residency::catalog::{CacheBlockRecord, CacheResidencyManager};
use crate::cache_residency::error::{CacheFailure, CacheResidencyError};
use crate::cache_residency::stats::CacheResidencyReport;
use crate::cache_residency::worker::{
    DiskCompletion, DiskOperationKind, DiskTicket, DiskWorker,
};

verus! {

/// What the caller does after a generation change.
#[derive(Debug)]
pub struct GenerationChange {
    /// Invalidated operations whose task resources are to be awaited and retired.
    pub tickets: Vec<DiskTicket>,
    /// Live shard files that no block refers to any more.
    pub obsolete_files: Vec<String>,
}

/// The generation after another; the last one wraps around to zero.
pub open spec fn next_generation(generation: u64) -> u64 {
    if generation == u64::MAX {
        0
    } else {
        (generation + 1) as u64
    }
}

/// Disk operations in flight for the blocks, in catalog order.
pub open spec fn pending_tickets(blocks: Seq<CacheBlockRecord>) -> Seq<DiskTicket>
    decreases blocks.len(),
{
    if blocks.len() == 0 {
        Seq::empty()
    } else {
        let rest = pending_tickets(blocks.drop_last());
        match blocks.last().pending_disk {
            Some(ticket) => rest.push(ticket),
            None => rest,
        }
    }
}

/// A block after its generation ended: a pending read is forgotten, a pending write
/// still owns host arrays.
pub open spec fn without_read(record: CacheBlockRecord) -> CacheBlockRecord {
    if record.writing() {
        record
    } else {
        CacheBlockRecord { pending_disk: None, ..record }
    }
}

/// The live shard file of a block, when it has one.
pub open spec fn live_file(record: CacheBlockRecord) -> Option<String> {
    match record.disk {
        Some(location) => if location.persistent {
            None
        } else {
            Some(location.path)
        },
        None => None,
    }
}

/// The live shard files of blocks, in order.
pub open spec fn live_files(blocks: Seq<CacheBlockRecord>) -> Seq<String>
    decreases blocks.len(),
{
    if blocks.len() == 0 {
        Seq::empty()
    } else {
        let rest = live_files(blocks.drop_last());
        match live_file(blocks.last()) {
            Some(path) => rest.push(path),
            None => rest,
        }
    }
}

/// Selects the blocks that an operation removes.
#[derive(Debug, Clone, Copy, PartialEq, Eq, Structural)]
pub enum BlockSelection {
    /// Blocks of a layer that end behind a truncation boundary.
    Behind {
        /// Truncated layer.
        layer: usize,
        /// Truncated representation.
        representation: CacheRepresentation,
        /// Truncation boundary.
        end: i64,
    },
    /// Blocks of a layer that a sliding window no longer sees.
    Invisible {
        /// Sliding layer.
        layer: usize,
        /// Sliding representation.
        representation: CacheRepresentation,
        /// First visible position.
        visible_start: i64,
        /// Tokens of the pinned prefix.
        prefix_tokens: i64,
    },
}

impl BlockSelection {
    /// Whether a block is selected.
    pub open spec fn selects(self, record: CacheBlockRecord) -> bool {
        match self {
            BlockSelection::Behind { layer, representation, end } => {
                &&& record.id.global_layer == layer
                &&& record.id.representation == representation
                &&& record.id.end > end
            },
            BlockSelection::Invisible { layer, representation, visible_start, prefix_tokens } => {
                &&& record.id.global_layer == layer
                &&& record.id.representation == representation
                &&& record.id.end <= visible_start
                &&& record.id.end > prefix_tokens
                &&& record.leases == 0
                &&& !record.imported
            },
        }
    }

    pub(crate) fn is_selected(&self, record: &CacheBlockRecord) -> (selected: bool)
        ensures
            selected == self.selects(*record),
    {
        match *self {
            BlockSelection::Behind { layer, representation, end } => record.id.global_layer == layer
                && record.id.representation == representation && record.id.end > end,
            BlockSelection::Invisible { layer, representation, visible_start, prefix_tokens } =>
                record.id.global_layer == layer && record.id.representation == representation
                    && record.id.end <= visible_start && record.id.end > prefix_tokens
                    && record.leases == 0 && !record.imported,
        }
    }
}

impl CacheResidencyManager {
    /// Whether the sizes and positions of two catalogs add up to the same.
    pub open spec fn weighs_as(self, other: CacheResidencyManager) -> bool {
        &&& self.parts().len() == other.parts().len()
        &&& crate::cache_residency::report::bytes_of(self.parts())
            == crate::cache_residency::report::bytes_of(other.parts())
        &&& crate::cache_residency::report::tokens_of(self.parts())
            == crate::cache_residency::report::tokens_of(other.parts())
    }

    /// Whether the sizes and positions of this catalog add up to no more than another's.
    pub open spec fn weighs_at_most(self, other: CacheResidencyManager) -> bool {
        &&& self.parts().len() <= other.parts().len()
        &&& crate::cache_residency::report::bytes_of(self.parts())
            <= crate::cache_residency::report::bytes_of(other.parts())
        &&& crate::cache_residency::report::tokens_of(self.parts())
            <= crate::cache_residency::report::tokens_of(other.parts())
    }

    /// The report with the cancellations of a generation change counted.
    pub open spec fn report_after_cancelling(self) -> CacheResidencyReport {
        CacheResidencyReport {
            cancellations: (self.report.cancellations
                + crate::cache_residency::worker::cancelled_among(
                self.worker.completions@,
                pending_tickets(self.blocks@),
            )) as u64,
            ..self.report
        }
    }

    /// The blocks after a generation change.
    pub open spec fn blocks_after_cancelling(self) -> Seq<CacheBlockRecord> {
        self.blocks@.map_values(|record: CacheBlockRecord| without_read(record))
    }

    /// Whether this manager is in the generation after `before`, with every operation
    /// in flight then cancelled and no background failure left.
    pub open spec fn follows(self, before: CacheResidencyManager) -> bool {
        &&& self.generation == next_generation(before.generation)
        &&& self.background_disk_error is None
        &&& self.worker.completions@ == crate::cache_residency::worker::cancel_each(
            before.worker.completions@,
            pending_tickets(before.blocks@),
        )
        &&& self.worker == (DiskWorker { completions: self.worker.completions, ..before.worker })
    }

    /// Whether counting the cancellations of a generation change cannot overflow.
    pub open spec fn can_count_cancellations(self) -> bool {
        self.report.cancellations + self.blocks@.len() <= u64::MAX
    }
}

proof fn cancelling_keeps_places(completions: Seq<DiskCompletion>, tickets: Seq<DiskTicket>)
    ensures
        crate::cache_residency::worker::cancel_each(completions, tickets).len()
            == completions.len(),
        forall|i: int|
            0 <= i < completions.len() ==> (#[trigger] crate::cache_residency::worker::cancel_each(
                completions,
                tickets,
            )[i]).vacant == completions[i].vacant,
        crate::cache_residency::worker::cancelled_among(completions, tickets) <= tickets.len(),
    decreases tickets.len(),
{
    if tickets.len() > 0 {
        cancelling_keeps_places(completions, tickets.drop_last());
    }
}

proof fn tickets_are_fewer(blocks: Seq<CacheBlockRecord>)
    ensures
        pending_tickets(blocks).len() <= blocks.len(),
    decreases blocks.len(),
{
    if blocks.len() > 0 {
        tickets_are_fewer(blocks.drop_last());
    }
}

/// An ordered catalog stays ordered without one of its records.
pub(crate) proof fn removal_keeps_order(blocks: Seq<CacheBlockRecord>, position: int)
    requires
        crate::cache_residency::catalog::blocks_ordered(blocks),
        0 <= position < blocks.len(),
    ensures
        crate::cache_residency::catalog::blocks_ordered(blocks.remove(position)),
{
    let after = blocks.remove(position);
    assert forall|i: int, j: int| 0 <= i < j < after.len() implies crate::cache_residency::block::id_before(
        (#[trigger] after[i]).id,
        (#[trigger] after[j]).id,
    ) by {
        let a = if i < position {
            i
        } else {
            i + 1
        };
        let b = if j < position {
            j
        } else {
            j + 1
        };
        assert(after[i] == blocks[a] && after[j] == blocks[b]);
    }
}

pub(crate) fn push_live_file(files: &mut Vec<String>, record: &CacheBlockRecord)
    ensures
        final(files)@ == (match live_file(*record) {
            Some(path) => old(files)@.push(path),
            None => old(files)@,
        }),
{
    match &record.disk {
        Some(location) => {
            if !location.persistent {
                files.push(location.path.clone());
            }
        },
        None => {},
    }
}

pub(crate) fn collect_live_files(records: &Vec<CacheBlockRecord>) -> (files: Vec<String>)
    ensures
        files@ == live_files(records@),
{
    let mut files: Vec<String> = Vec::new();
    let mut index: usize = 0;
    while index < records.len()
        invariant
            index <= records@.len(),
            files@ == live_files(records@.take(index as int)),
        decreases records@.len() - index,
    {
        push_live_file(&mut files, &records[index]);
        assert(records@.take(index + 1).drop_last() =~= records@.take(index as int));
        index = index + 1;
    }
    assert(records@.take(index as int) =~= records@);
    files
}

impl CacheResidencyManager {
    /// Starts a new generation: every operation in flight is cancelled and a failure
    /// of the past generation is forgotten.
    pub fn advance_generation(&mut self) -> (tickets: Vec<DiskTicket>)
        requires
            old(self).wf(),
            old(self).can_count_cancellations(),
        ensures
            final(self).wf(),
            final(self).follows(*old(self)),
            final(self).weighs_as(*old(self)),
            tickets@ == pending_tickets(old(self).blocks@),
            final(self).blocks@ == old(self).blocks_after_cancelling(),
            final(self).report == old(self).report_after_cancelling(),
            *final(self) == (CacheResidencyManager {
                generation: final(self).generation,
                background_disk_error: final(self).background_disk_error,
                worker: final(self).worker,
                blocks: final(self).blocks,
                report: final(self).report,
                ..*old(self)
            }),
    {
        self.generation = if self.generation == u64::MAX {
            0
        } else {
            self.generation + 1
        };
        self.background_disk_error = None;
        let mut tickets: Vec<DiskTicket> = Vec::new();
        let ghost before = old(self).blocks@;
        let ghost completions = old(self).worker.completions@;
        let mut index: usize = 0;
        while index < self.blocks.len()
            invariant
                before == old(self).blocks@,
                completions == old(self).worker.completions@,
                old(self).wf(),
                old(self).can_count_cancellations(),
                index <= before.len(),
                self.blocks@.len() == before.len(),
                forall|i: int| index <= i < before.len() ==> #[trigger] self.blocks@[i] == before[i],
                forall|i: int|
                    0 <= i < index ==> #[trigger] self.blocks@[i] == without_read(before[i]),
                tickets@ == pending_tickets(before.take(index as int)),
                self.worker.wf(),
                self.worker.completions@ == crate::cache_residency::worker::cancel_each(
                    completions,
                    tickets@,
                ),
                self.worker == (DiskWorker {
                    completions: self.worker.completions,
                    ..old(self).worker
                }),
                self.report == (CacheResidencyReport {
                    cancellations: (old(self).report.cancellations
                        + crate::cache_residency::worker::cancelled_among(
                        completions,
                        tickets@,
                    )) as u64,
                    ..old(self).report
                }),
                *self == (CacheResidencyManager {
                    generation: self.generation,
                    background_disk_error: self.background_disk_error,
                    worker: self.worker,
                    blocks: self.blocks,
                    report: self.report,
                    ..*old(self)
                }),
                self.generation == next_generation(old(self).generation),
                self.background_disk_error is None,
            decreases before.len() - index,
        {
            let ghost prefix = before.take(index + 1);
            let ghost so_far = tickets@;
            proof {
                assert(prefix.drop_last() =~= before.take(index as int));
                assert(prefix.last() == before[index as int]);
                assert(self.blocks@[index as int] == before[index as int]);
                tickets_are_fewer(before.take(index as int));
                cancelling_keeps_places(completions, so_far);
                assert(before[index as int].pending_disk matches Some(ticket)
                    ==> old(self).worker.knows(ticket));
            }
            let pending = self.blocks[index].pending_disk;
            match pending {
                Some(ticket) => {
                    if self.worker.cancel(&ticket) {
                        self.report.cancellations = self.report.cancellations + 1;
                    }
                    tickets.push(ticket);
                    assert(tickets@.drop_last() =~= so_far);
                    if ticket.key.kind != DiskOperationKind::Write {
                        self.blocks[index].pending_disk = None;
                    }
                },
                None => {},
            }
            index = index + 1;
        }
        proof {
            assert(before.take(index as int) =~= before);
            assert(self.blocks@ =~= old(self).blocks_after_cancelling());
            cancelling_keeps_places(completions, tickets@);
            assert(crate::cache_residency::catalog::blocks_ordered(self.blocks@)) by {
                assert forall|i: int, j: int|
                    0 <= i < j
                        < self.blocks@.len() implies crate::cache_residency::block::id_before(
                    (#[trigger] self.blocks@[i]).id,
                    (#[trigger] self.blocks@[j]).id,
                ) by {
                    assert(crate::cache_residency::block::id_before(before[i].id, before[j].id));
                }
            }
            assert forall|i: int| 0 <= i < self.blocks@.len() implies (
            #[trigger] self.blocks@[i]).placed() by {
                assert(before[i].placed());
            }
            assert forall|i: int| 0 <= i < self.blocks@.len() implies ((
            #[trigger] self.blocks@[i]).pending_disk matches Some(ticket) ==> self.worker.knows(
                ticket,
            )) by {
                assert(before[i].pending_disk matches Some(ticket) ==> old(self).worker.knows(
                    ticket,
                ));
            }
            assert forall|i: int| 0 <= i < self.host_write_reservations@.len() implies self.worker.knows(
                (#[trigger] self.host_write_reservations@[i]).ticket,
            ) by {
                assert(old(self).worker.knows(old(self).host_write_reservations@[i].ticket));
            }
            crate::cache_residency::report::same_weight(*old(self), *self);
        }
        tickets
    }

    /// Takes one record out of the catalog.
    pub(crate) fn take_block(&mut self, index: usize) -> (record: CacheBlockRecord)
        requires
            old(self).wf(),
            index < old(self).blocks@.len(),
        ensures
            final(self).wf(),
            final(self).weighs_at_most(*old(self)),
            record == old(self).blocks@[index as int],
            final(self).blocks@ == old(self).blocks@.remove(index as int),
            *final(self) == (CacheResidencyManager { blocks: final(self).blocks, ..*old(self) }),
    {
        proof {
            removal_keeps_order(self.blocks@, index as int);
        }
        let record = self.blocks.remove(index);
        proof {
            let before = old(self).blocks@;
            let after = self.blocks@;
            assert forall|i: int| 0 <= i < after.len() implies (#[trigger] after[i]).placed() && (
            after[i].pending_disk matches Some(ticket) ==> self.worker.knows(ticket)) by {
                let source = if i < index {
                    i
                } else {
                    i + 1
                };
                assert(after[i] == before[source]);
                assert(before[source].placed());
            }
            assert(after.insert(index as int, record) =~= before);
            crate::cache_residency::report::block_insertion_weight(
                *self,
                *old(self),
                index as int,
                record,
            );
        }
        record
    }

    /// Takes the selected records out of the catalog, in catalog order.
    pub(crate) fn take_selected(&mut self, selection: &BlockSelection) -> (removed: Vec<CacheBlockRecord>)
        requires
            old(self).wf(),
        ensures
            final(self).wf(),
            final(self).weighs_at_most(*old(self)),
            removed@ == old(self).blocks@.filter(
                |record: CacheBlockRecord| selection.selects(record),
            ),
            final(self).blocks@ == old(self).blocks@.filter(
                |record: CacheBlockRecord| !selection.selects(record),
            ),
            *final(self) == (CacheResidencyManager { blocks: final(self).blocks, ..*old(self) }),
    {
        let ghost doomed = |record: CacheBlockRecord| selection.selects(record);
        let ghost kept = |record: CacheBlockRecord| !selection.selects(record);
        let ghost before = self.blocks@;
        let mut removed: Vec<CacheBlockRecord> = Vec::new();
        let mut index: usize = 0;
        let ghost mut seen: int = 0;
        proof {
            reveal(Seq::filter);
            assert(before.take(0).filter(kept) =~= Seq::empty());
            assert(before.take(0).filter(doomed) =~= Seq::empty());
            assert(before.skip(0) =~= before);
        }
        while index < self.blocks.len()
            invariant
                before == old(self).blocks@,
                doomed == (|record: CacheBlockRecord| selection.selects(record)),
                kept == (|record: CacheBlockRecord| !selection.selects(record)),
                self.wf(),
                self.weighs_at_most(*old(self)),
                *self == (CacheResidencyManager { blocks: self.blocks, ..*old(self) }),
                0 <= seen <= before.len(),
                index == before.take(seen).filter(kept).len(),
                self.blocks@ == before.take(seen).filter(kept) + before.skip(seen),
                removed@ == before.take(seen).filter(doomed),
            decreases before.len() - seen,
        {
            let ghost so_far = self.blocks@;
            proof {
                reveal(Seq::filter);
                assert(before.take(seen + 1).drop_last() =~= before.take(seen));
                assert(before.take(seen + 1).last() == before[seen]);
                assert(self.blocks@[index as int] == before[seen]);
            }
            if selection.is_selected(&self.blocks[index]) {
                let record = self.take_block(index);
                removed.push(record);
                proof {
                    assert(self.blocks@ =~= before.take(seen + 1).filter(kept) + before.skip(
                        seen + 1,
                    ));
                    assert(removed@ =~= before.take(seen + 1).filter(doomed));
                }
            } else {
                index = index + 1;
                proof {
                    assert(self.blocks@ =~= before.take(seen + 1).filter(kept) + before.skip(
                        seen + 1,
                    ));
                    assert(removed@ =~= before.take(seen + 1).filter(doomed));
                }
            }
            proof {
                seen = seen + 1;
            }
        }
        proof {
            assert(seen == before.len());
            assert(before.take(seen) =~= before);
            assert(self.blocks@ =~= before.filter(kept));
        }
        removed
    }

    /// Removes one block that no attention leases.
    pub fn remove_block(&mut self, id: &CacheBlockId) -> (outcome: Result<
        GenerationChange,
        CacheResidencyError,
    >)
        requires
            old(self).wf(),
            old(self).fits(),
            old(self).can_count_cancellations(),
        ensures
            final(self).wf(),
            crate::cache_residency::error::failure_of(outcome) == (if !old(self).has_block(*id) {
                Some(CacheFailure::MissingBlock(*id))
            } else if old(self).block(*id).leases != 0 {
                Some(CacheFailure::BlockLeased(*id))
            } else {
                None
            }),
            outcome is Err ==> *final(self) == *old(self),
            outcome matches Ok(change) ==> {
                &&& final(self).follows(*old(self))
                &&& final(self).fits()
                &&& final(self).blocks@ == old(self).blocks_after_cancelling().remove(
                    old(self).block_index(*id),
                )
                &&& final(self).reports(old(self).report_after_cancelling())
                &&& change.tickets@ == pending_tickets(old(self).blocks@)
                &&& change.obsolete_files@ == live_files(seq![old(self).block(*id)])
                &&& *final(self) == (CacheResidencyManager {
                    generation: final(self).generation,
                    background_disk_error: final(self).background_disk_error,
                    worker: final(self).worker,
                    blocks: final(self).blocks,
                    report: final(self).report,
                    ..*old(self)
                })
            },
    {
        let index: usize = match self.find_block(id) {
            Some(index) => index,
            None => {
                return Err(CacheResidencyError::MissingBlock(*id));
            },
        };
        if self.blocks[index].leases != 0 {
            return Err(CacheResidencyError::BlockLeased(*id));
        }
        let tickets = self.advance_generation();
        let record = self.take_block(index);
        let mut obsolete_files: Vec<String> = Vec::new();
        push_live_file(&mut obsolete_files, &record);
        proof {
            let one = seq![old(self).block(*id)];
            assert(one.drop_last() =~= Seq::empty());
            assert(live_files(one.drop_last()) =~= Seq::empty());
            assert(obsolete_files@ =~= live_files(one));
        }
        self.update_report_totals();
        Ok(GenerationChange { tickets, obsolete_files })
    }

    /// Discards the blocks of a layer that a sliding window no longer sees, unless
    /// they are retained for persistence.
    pub fn discard_before(
        &mut self,
        layer: usize,
        representation: CacheRepresentation,
        visible_start: i64,
        prefix_tokens: i64,
    ) -> (change: GenerationChange)
        requires
            old(self).wf(),
            old(self).fits(),
            old(self).can_count_cancellations(),
            old(self).report.discarded_sliding_blocks + old(self).blocks@.len() <= u64::MAX,
        ensures
            final(self).wf(),
            final(self).fits(),
            ({
                let selection = BlockSelection::Invisible {
                    layer,
                    representation,
                    visible_start,
                    prefix_tokens,
                };
                let invisible = old(self).blocks@.filter(
                    |record: CacheBlockRecord| selection.selects(record),
                );
                let discarded = invisible.len();
                if old(self).options@.retain_discarded_for_persistence {
                    &&& *final(self) == *old(self)
                    &&& change.tickets@.len() == 0
                    &&& change.obsolete_files@.len() == 0
                } else if discarded == 0 {
                    &&& final(self).reports(old(self).report)
                    &&& *final(self) == (CacheResidencyManager {
                        report: final(self).report,
                        ..*old(self)
                    })
                    &&& change.tickets@.len() == 0
                    &&& change.obsolete_files@.len() == 0
                } else {
                    &&& final(self).follows(*old(self))
                    &&& final(self).blocks@ == old(self).blocks_after_cancelling().filter(
                        |record: CacheBlockRecord| !selection.selects(record),
                    )
                    &&& final(self).reports(
                        CacheResidencyReport {
                            discarded_sliding_blocks: (old(self).report.discarded_sliding_blocks
                                + discarded) as u64,
                            ..old(self).report_after_cancelling()
                        },
                    )
                    &&& change.tickets@ == pending_tickets(old(self).blocks@)
                    &&& change.obsolete_files@ == live_files(
                        old(self).blocks_after_cancelling().filter(
                            |record: CacheBlockRecord| selection.selects(record),
                        ),
                    )
                    &&& *final(self) == (CacheResidencyManager {
                        generation: final(self).generation,
                        background_disk_error: final(self).background_disk_error,
                        worker: final(self).worker,
                        blocks: final(self).blocks,
                        report: final(self).report,
                        ..*old(self)
                    })
                }
            }),
    {
        if self.options.retains_discarded_for_persistence() {
            return GenerationChange { tickets: Vec::new(), obsolete_files: Vec::new() };
        }
        let selection = BlockSelection::Invisible {
            layer,
            representation,
            visible_start,
            prefix_tokens,
        };
        let ghost chosen = |record: CacheBlockRecord| selection.selects(record);
        let ghost before = self.blocks@;
        let mut any = false;
        let mut index: usize = 0;
        while index < self.blocks.len()
            invariant
                self.blocks@ == before,
                index <= before.len(),
                any == exists|i: int| 0 <= i < index && selection.selects(#[trigger] before[i]),
            decreases before.len() - index,
        {
            if selection.is_selected(&self.blocks[index]) {
                any = true;
            }
            index = index + 1;
        }
        proof {
            broadcast use vstd::seq_lib::group_filter_ensures;

            if any {
                let i = choose|i: int| 0 <= i < before.len() && selection.selects(
                    #[trigger] before[i],
                );
                assert(chosen(before[i]));
                assert(before.filter(chosen).contains(before[i]));
            } else if before.filter(chosen).len() > 0 {
                let first = before.filter(chosen)[0];
                assert(chosen(first));
                assert(before.filter(chosen).contains(first));
                before.lemma_filter_contains_rev(chosen, first);
                assert(before.contains(first));
            }
        }
        if !any {
            self.update_report_totals();
            return GenerationChange { tickets: Vec::new(), obsolete_files: Vec::new() };
        }
        let tickets = self.advance_generation();
        let ghost cancelled = self.blocks@;
        let removed = self.take_selected(&selection);
        proof {
            assert(removed@ == cancelled.filter(chosen));
            selection_ignores_reads(before, cancelled, chosen);
            before.lemma_filter_len(chosen);
        }
        self.report.discarded_sliding_blocks = self.report.discarded_sliding_blocks
            + removed.len() as u64;
        let obsolete_files = collect_live_files(&removed);
        self.update_report_totals();
        GenerationChange { tickets, obsolete_files }
    }

    /// The first block that attention leases.
    pub open spec fn first_leased(self) -> Option<CacheBlockId> {
        first_leased(self.blocks@)
    }

    /// Clears every live block and starts a new generation.
    pub fn clear(&mut self) -> (outcome: Result<GenerationChange, CacheResidencyError>)
        requires
            old(self).wf(),
            old(self).fits(),
            old(self).can_count_cancellations(),
        ensures
            final(self).wf(),
            crate::cache_residency::error::failure_of(outcome) == (match old(self).first_leased() {
                Some(id) => Some(CacheFailure::BlockLeased(id)),
                None => None,
            }),
            outcome is Err ==> *final(self) == *old(self),
            outcome matches Ok(change) ==> {
                &&& final(self).follows(*old(self))
                &&& final(self).fits()
                &&& final(self).blocks@.len() == 0
                &&& final(self).tails@.len() == 0
                &&& final(self).reports(old(self).report_after_cancelling())
                &&& change.tickets@ == pending_tickets(old(self).blocks@)
                &&& change.obsolete_files@ == live_files(old(self).blocks_after_cancelling())
                &&& *final(self) == (CacheResidencyManager {
                    generation: final(self).generation,
                    background_disk_error: final(self).background_disk_error,
                    worker: final(self).worker,
                    blocks: final(self).blocks,
                    tails: final(self).tails,
                    report: final(self).report,
                    ..*old(self)
                })
            },
    {
        match self.find_leased() {
            Some(id) => {
                return Err(CacheResidencyError::BlockLeased(id));
            },
            None => {},
        }
        let tickets = self.advance_generation();
        let ghost advanced = *self;
        let obsolete_files = collect_live_files(&self.blocks);
        self.blocks.clear();
        self.tails.clear();
        proof {
            let before = advanced.parts();
            let after = self.parts();
            let skipped = before.len() - after.len();
            assert forall|i: int| 0 <= i < after.len() implies (#[trigger] after[i]).bytes
                == before[i + skipped].bytes && after[i].tokens == before[i + skipped].tokens by {}
            suffix_weighs_less(advanced, after, skipped);
        }
        self.update_report_totals();
        Ok(GenerationChange { tickets, obsolete_files })
    }

    /// Finds the first block that attention leases.
    pub fn find_leased(&self) -> (leased: Option<CacheBlockId>)
        ensures
            leased == self.first_leased(),
    {
        let mut index: usize = 0;
        proof {
            assert(self.blocks@.skip(0) =~= self.blocks@);
        }
        while index < self.blocks.len()
            invariant
                index <= self.blocks@.len(),
                first_leased(self.blocks@) == first_leased(self.blocks@.skip(index as int)),
            decreases self.blocks@.len() - index,
        {
            let ghost rest = self.blocks@.skip(index as int);
            assert(rest[0] == self.blocks@[index as int]);
            if self.blocks[index].leases != 0 {
                return Some(self.blocks[index].id);
            }
            assert(rest.drop_first() =~= self.blocks@.skip(index + 1));
            index = index + 1;
        }
        None
    }
}

/// The first leased block of a catalog.
pub open spec fn first_leased(blocks: Seq<CacheBlockRecord>) -> Option<CacheBlockId>
    decreases blocks.len(),
{
    if blocks.len() == 0 {
        None
    } else if blocks[0].leases != 0 {
        Some(blocks[0].id)
    } else {
        first_leased(blocks.drop_first())
    }
}

/// Forgetting reads does not change which blocks a window selects.
proof fn selection_ignores_reads(
    before: Seq<CacheBlockRecord>,
    after: Seq<CacheBlockRecord>,
    chosen: spec_fn(CacheBlockRecord) -> bool,
)
    requires
        after == before.map_values(|record: CacheBlockRecord| without_read(record)),
        forall|record: CacheBlockRecord| chosen(record) == #[trigger] chosen(without_read(record)),
    ensures
        after.filter(chosen).len() == before.filter(chosen).len(),
    decreases before.len(),
{
    reveal(Seq::filter);
    if before.len() > 0 {
        assert(after.drop_last() =~= before.drop_last().map_values(
            |record: CacheBlockRecord| without_read(record),
        ));
        selection_ignores_reads(before.drop_last(), after.drop_last(), chosen);
        assert(after.last() == without_read(before.last()));
        assert(chosen(before.last()) == chosen(without_read(before.last())));
    }
}

/// The last parts of a catalog weigh no more than all of them.
proof fn suffix_weighs_less(
    manager: CacheResidencyManager,
    after: Seq<crate::cache_residency::report::Part>,
    skipped: int,
)
    requires
        0 <= skipped <= manager.parts().len(),
        after.len() == manager.parts().len() - skipped,
        forall|i: int|
            0 <= i < after.len() ==> (#[trigger] after[i]).bytes == manager.parts()[i
                + skipped].bytes && after[i].tokens == manager.parts()[i + skipped].tokens,
    ensures
        crate::cache_residency::report::bytes_of(after)
            <= crate::cache_residency::report::bytes_of(manager.parts()),
        crate::cache_residency::report::tokens_of(after)
            <= crate::cache_residency::report::tokens_of(manager.parts()),
{
    crate::cache_residency::report::parts_are_modest(manager);
    let pick = |i: int| i + skipped;
    assert(crate::cache_residency::report::picks(manager.parts(), after, pick));
    crate::cache_residency::report::subset_weight(manager.parts(), after);
}

/// Clearing forgets blocks but not what happened to them: cumulative activity survives.
pub proof fn activity_survives_clearing(before: CacheResidencyManager, after: CacheResidencyManager)
    requires
        after.reports(before.report_after_cancelling()),
    ensures
        after.report.activity() == before.report.activity(),
        after.report.block_seals == before.report.block_seals,
        after.report.tail_allocations == before.report.tail_allocations,
        after.report.evictions == before.report.evictions,
{
}

/// Whether a record waits for an operation.
pub open spec fn waits_for(record: CacheBlockRecord, operation: usize) -> bool {
    record.pending_disk matches Some(ticket) && ticket.operation == operation
}

impl CacheResidencyManager {
    /// Whether a record or a host reservation refers to an operation.
    pub open spec fn refers_to(self, operation: usize) -> bool {
        ||| exists|i: int|
            0 <= i < self.blocks@.len() && waits_for(#[trigger] self.blocks@[i], operation)
        ||| exists|i: int|
            0 <= i < self.host_write_reservations@.len() && (
            #[trigger] self.host_write_reservations@[i]).ticket.operation == operation
    }

    fn finds_reference(&self, operation: usize) -> (found: bool)
        ensures
            found == self.refers_to(operation),
    {
        let mut index: usize = 0;
        while index < self.blocks.len()
            invariant
                index <= self.blocks@.len(),
                forall|i: int|
                    0 <= i < index ==> !waits_for(#[trigger] self.blocks@[i], operation),
            decreases self.blocks@.len() - index,
        {
            match self.blocks[index].pending_disk {
                Some(ticket) => {
                    if ticket.operation == operation {
                        assert(waits_for(self.blocks@[index as int], operation));
                        return true;
                    }
                },
                None => {},
            }
            index = index + 1;
        }
        index = 0;
        while index < self.host_write_reservations.len()
            invariant
                index <= self.host_write_reservations@.len(),
                forall|i: int|
                    0 <= i < index ==> (
                    #[trigger] self.host_write_reservations@[i]).ticket.operation != operation,
            decreases self.host_write_reservations@.len() - index,
        {
            if self.host_write_reservations[index].ticket.operation == operation {
                assert(self.host_write_reservations@[index as int].ticket.operation == operation);
                return true;
            }
            index = index + 1;
        }
        false
    }

    /// Forgets a disk operation that is over and that nothing in the catalog refers to, so
    /// that its place can be taken by another. The caller holds no ticket of it any more.
    pub fn forget_operation(&mut self, ticket: &DiskTicket) -> (forgotten: bool)
        requires
            old(self).wf(),
            old(self).worker.knows(*ticket),
        ensures
            final(self).wf(),
            forgotten == (old(self).worker.is_over(*ticket) && !old(self).refers_to(
                ticket.operation,
            )),
            final(self).worker.completions@ == (if forgotten {
                old(self).worker.completions@.update(
                    ticket.operation as int,
                    (DiskCompletion {
                        vacant: true,
                        ..old(self).worker.completions@[ticket.operation as int]
                    }),
                )
            } else {
                old(self).worker.completions@
            }),
            *final(self) == (CacheResidencyManager {
                worker: (DiskWorker {
                    completions: final(self).worker.completions,
                    ..old(self).worker
                }),
                ..*old(self)
            }),
            final(self).weighs_as(*old(self)),
    {
        if self.finds_reference(ticket.operation) {
            proof {
                crate::cache_residency::report::same_weight(*old(self), *self);
            }
            return false;
        }
        let forgotten = self.worker.forget(ticket);
        proof {
            assert forall|i: int| 0 <= i < self.blocks@.len() implies ((
            #[trigger] self.blocks@[i]).pending_disk matches Some(pending) ==> self.worker.knows(
                pending,
            )) by {
                assert(!waits_for(old(self).blocks@[i], ticket.operation));
                assert(old(self).blocks@[i].pending_disk matches Some(pending) ==> old(
                    self,
                ).worker.knows(pending));
            }
            assert forall|i: int| 0 <= i < self.host_write_reservations@.len() implies self.worker.knows(
                (#[trigger] self.host_write_reservations@[i]).ticket,
            ) by {
                assert(old(self).worker.knows(old(self).host_write_reservations@[i].ticket));
            }
            crate::cache_residency::report::same_weight(*old(self), *self);
        }
        forgotten
    }
}

} // verus!
