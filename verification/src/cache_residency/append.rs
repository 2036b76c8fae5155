//! Mutable tails, sealing of blocks and truncation of layers.

use vstd::prelude::*;

use crate::cache_residency::block::{CacheBlockArrays, CacheBlockId, CacheRankIdentity, CacheTier};
use crate::cache_residency::catalog::{CacheBlockRecord, CacheResidencyManager, CacheTail};
use crate::cache_residency::error::{CacheFailure, CacheResidencyError};
use crate::cache_residency::stats::CacheResidencyReport;
use crate::cache_residency::worker::DiskWorker;
use vstd::string::StringExecFns;

verus! {

/// Whether a layer has a tail.
pub open spec fn has_tail(tails: Seq<CacheTail>, layer: usize) -> bool {
    exists|i: int| 0 <= i < tails.len() && (#[trigger] tails[i]).global_layer == layer
}

/// The tail of a layer, if it has one.
pub open spec fn tail_of(tails: Seq<CacheTail>, layer: usize) -> Option<CacheTail> {
    if has_tail(tails, layer) {
        Some(
            tails[choose|i: int|
                0 <= i < tails.len() && (#[trigger] tails[i]).global_layer == layer],
        )
    } else {
        None
    }
}

/// In ordered tails a layer's tail is the one at its position.
proof fn tail_is(tails: Seq<CacheTail>, i: int)
    requires
        crate::cache_residency::catalog::tails_ordered(tails),
        0 <= i < tails.len(),
    ensures
        tail_of(tails, tails[i].global_layer) == Some(tails[i]),
{
    let layer = tails[i].global_layer;
    let j = choose|j: int| 0 <= j < tails.len() && (#[trigger] tails[j]).global_layer == layer;
    if i < j {
        assert(tails[i].global_layer < tails[j].global_layer);
    }
    if j < i {
        assert(tails[j].global_layer < tails[i].global_layer);
    }
}

/// Tails of other layers are the same in both lists.
proof fn other_tails_agree(
    before: Seq<CacheTail>,
    after: Seq<CacheTail>,
    layer: usize,
    other: usize,
    forward: spec_fn(int) -> int,
    backward: spec_fn(int) -> int,
)
    requires
        crate::cache_residency::catalog::tails_ordered(before),
        crate::cache_residency::catalog::tails_ordered(after),
        other != layer,
        forall|i: int|
            0 <= i < before.len() && (#[trigger] before[i]).global_layer != layer ==> 0 <= forward(i)
                < after.len() && after[forward(i)] == before[i],
        forall|i: int|
            0 <= i < after.len() && (#[trigger] after[i]).global_layer != layer ==> 0 <= backward(i)
                < before.len() && before[backward(i)] == after[i],
    ensures
        tail_of(after, other) == tail_of(before, other),
{
    if has_tail(before, other) {
        let i = choose|i: int|
            0 <= i < before.len() && (#[trigger] before[i]).global_layer == other;
        assert(after[forward(i)] == before[i]);
        tail_is(before, i);
        tail_is(after, forward(i));
    }
    if has_tail(after, other) {
        let i = choose|i: int| 0 <= i < after.len() && (#[trigger] after[i]).global_layer == other;
        assert(before[backward(i)] == after[i]);
        tail_is(before, backward(i));
    }
}

/// A tail in place of another weighs as much as the parts with it in that place.
proof fn tail_update_weight(
    before: CacheResidencyManager,
    after: CacheResidencyManager,
    index: int,
    tail: CacheTail,
)
    requires
        0 <= index < before.tails@.len(),
        before.blocks@ == after.blocks@,
        before.host_write_reservations@ == after.host_write_reservations@,
        after.tails@ == before.tails@.update(index, tail),
    ensures
        after.parts().len() == before.parts().len(),
        crate::cache_residency::report::bytes_of(after.parts())
            == crate::cache_residency::report::bytes_of(before.parts())
            - before.tails@[index].bytes + tail.bytes,
        crate::cache_residency::report::tokens_of(after.parts())
            == crate::cache_residency::report::tokens_of(before.parts())
            - crate::cache_residency::report::tokens_before(before.tails@[index].end)
            + crate::cache_residency::report::tokens_before(tail.end),
{
    let shorter = before.parts().remove(index);
    let part = crate::cache_residency::report::tail_part(tail);
    crate::cache_residency::report::removal_weighs(before.parts(), index);
    crate::cache_residency::report::insertion_weighs(shorter, index, part);
    let expected = shorter.insert(index, part);
    let actual = after.parts();
    assert(actual.len() == expected.len());
    assert(expected =~= before.parts().update(index, part));
    assert(actual =~= before.parts().update(index, part));
}

/// A tail more weighs its bytes and tokens more.
proof fn tail_insert_weight(
    before: CacheResidencyManager,
    after: CacheResidencyManager,
    index: int,
    tail: CacheTail,
)
    requires
        0 <= index <= before.tails@.len(),
        before.blocks@ == after.blocks@,
        before.host_write_reservations@ == after.host_write_reservations@,
        after.tails@ == before.tails@.insert(index, tail),
    ensures
        after.parts().len() == before.parts().len() + 1,
        crate::cache_residency::report::bytes_of(after.parts())
            == crate::cache_residency::report::bytes_of(before.parts()) + tail.bytes,
        crate::cache_residency::report::tokens_of(after.parts())
            == crate::cache_residency::report::tokens_of(before.parts())
            + crate::cache_residency::report::tokens_before(tail.end),
{
    let part = crate::cache_residency::report::tail_part(tail);
    crate::cache_residency::report::insertion_weighs(before.parts(), index, part);
    assert(after.parts() =~= before.parts().insert(index, part));
}

/// How many blocks come before an identity: the place where its block belongs.
pub open spec fn block_position(blocks: Seq<CacheBlockRecord>, id: CacheBlockId) -> int
    decreases blocks.len(),
{
    if blocks.len() == 0 {
        0
    } else {
        block_position(blocks.drop_last(), id) + if crate::cache_residency::block::id_before(
            blocks.last().id,
            id,
        ) {
            1int
        } else {
            0int
        }
    }
}

proof fn block_position_is(blocks: Seq<CacheBlockRecord>, id: CacheBlockId, position: int)
    requires
        0 <= position <= blocks.len(),
        forall|i: int|
            0 <= i < position ==> crate::cache_residency::block::id_before(
                (#[trigger] blocks[i]).id,
                id,
            ),
        forall|i: int|
            position <= i < blocks.len() ==> crate::cache_residency::block::id_before(
                id,
                (#[trigger] blocks[i]).id,
            ),
    ensures
        block_position(blocks, id) == position,
    decreases blocks.len(),
{
    if blocks.len() > 0 {
        let rest = blocks.drop_last();
        let last = blocks[blocks.len() - 1];
        crate::cache_residency::block::id_order_is_total(last.id, id);
        assert forall|i: int| 0 <= i < rest.len() implies #[trigger] rest[i] == blocks[i] by {}
        if position == blocks.len() {
            block_position_is(rest, id, position - 1);
        } else {
            block_position_is(rest, id, position);
        }
    }
}

/// The record of a freshly sealed block.
pub open spec fn freshly_sealed(
    record: CacheBlockRecord,
    id: CacheBlockId,
    arrays: CacheBlockArrays,
    last_access: u64,
    protected_prefix: bool,
) -> bool {
    &&& record.id == id
    &&& record.tier == CacheTier::Device
    &&& record.arrays == Some(arrays)
    &&& record.disk is None
    &&& record.bytes == arrays.size()
    &&& record.first_shape@ == arrays.first_array().shape@
    &&& record.second_shape@ == arrays.second_array().shape@
    &&& record.first_dtype@ == arrays.first_array().dtype@
    &&& record.second_dtype@ == arrays.second_array().dtype@
    &&& !record.imported
    &&& record.leases == 0
    &&& record.access_count == 0
    &&& record.last_access == last_access
    &&& record.protected_prefix == protected_prefix
    &&& record.pending_disk is None
}

/// Copies a shape.
pub fn copy_shape(shape: &Vec<i32>) -> (copy: Vec<i32>)
    ensures
        copy@ == shape@,
{
    let mut copy: Vec<i32> = Vec::new();
    let mut index: usize = 0;
    while index < shape.len()
        invariant
            index <= shape@.len(),
            copy@ == shape@.take(index as int),
        decreases shape@.len() - index,
    {
        copy.push(shape[index]);
        index = index + 1;
        assert(copy@ =~= shape@.take(index as int));
    }
    assert(copy@ =~= shape@);
    copy
}

/// What [`CacheResidencyManager::begin_tail_update`] replaced.
#[derive(Debug, Clone, Copy, PartialEq, Eq, Structural)]
pub struct TailUpdate {
    /// Layer of the tail.
    pub global_layer: usize,
    /// The tail before the update.
    pub previous: Option<CacheTail>,
    /// Whether the update allocated the tail.
    pub allocated: bool,
}

/// Why arrays cannot be sealed as the block of a token range, if they cannot.
pub open spec fn sealing_failure(start: i64, end: i64, arrays: CacheBlockArrays) -> Option<
    CacheFailure,
> {
    if start < 0 || end <= start {
        Some(CacheFailure::InvalidTokenRange(start, end))
    } else {
        crate::cache_residency::block::block_arrays_failure(arrays, end - start)
    }
}

/// Checks that arrays hold exactly the tokens of a range.
pub fn check_seal(start: i64, end: i64, arrays: &CacheBlockArrays) -> (outcome: Result<
    (),
    CacheResidencyError,
>)
    requires
        0 <= start < end ==> arrays.comparable(end - start),
    ensures
        crate::cache_residency::error::failure_of(outcome) == sealing_failure(start, end, *arrays),
{
    if start < 0 || end <= start {
        return Err(CacheResidencyError::InvalidTokenRange { start, end });
    }
    arrays.validate(end - start)
}

/// Why a block cannot be sealed, if it cannot.
pub open spec fn seal_failure(
    manager: CacheResidencyManager,
    id: CacheBlockId,
    arrays: CacheBlockArrays,
) -> Option<CacheFailure> {
    let malformed = sealing_failure(id.start, id.end, arrays);
    if malformed is Some {
        malformed
    } else if manager.has_block(id) {
        Some(CacheFailure::DuplicateBlock(id))
    } else {
        None
    }
}

impl CacheResidencyManager {
    /// Whether this is an empty manager that nothing has happened to.
    pub open spec fn is_new(
        self,
        options: crate::cache_residency::options::PagedCacheOptions,
        session_id: u64,
    ) -> bool {
        &&& self.session_id == session_id
        &&& self.options == options
        &&& self.generation == 0
        &&& self.background_disk_error is None
        &&& self.access_clock == 0
        &&& self.blocks@.len() == 0
        &&& self.tails@.len() == 0
        &&& self.host_write_reservations@.len() == 0
        &&& self.next_reservation_id == 1
        &&& self.layer_activity@.len() == 0
        &&& self.layer_activity_overflow@ == crate::cache_residency::stats::Activity::zero()
        &&& self.report.is_blank(options@.queue_capacity())
        &&& self.worker.fresh(options@.queue_capacity())
    }

    /// Creates an empty manager with globally shared finite limits.
    pub fn new(
        options: crate::cache_residency::options::PagedCacheOptions,
        session_id: u64,
    ) -> (manager: Self)
        ensures
            manager.wf(),
            manager.fits(),
            manager.is_new(options, session_id),
    {
        options.check_valid();
        let queue_capacity: usize = options.queue_capacity();
        let manager = CacheResidencyManager {
            session_id,
            options,
            generation: 0,
            background_disk_error: None,
            access_clock: 0,
            blocks: Vec::new(),
            tails: Vec::new(),
            host_write_reservations: Vec::new(),
            next_reservation_id: 1,
            layer_activity: Vec::new(),
            layer_activity_overflow:
                crate::cache_residency::stats::CacheLayerActivityCounters::none(),
            report: CacheResidencyReport::empty(queue_capacity),
            worker: DiskWorker::new(queue_capacity),
        };
        assert(manager.parts() =~= Seq::empty());
        manager
    }

    /// Returns the live cache identity included in every block id.
    pub fn session_id(&self) -> (session_id: u64)
        ensures
            session_id == self.session_id,
    {
        self.session_id
    }

    /// Returns validated paged-cache options.
    pub fn options(&self) -> (options: &crate::cache_residency::options::PagedCacheOptions)
        ensures
            *options == self.options,
    {
        &self.options
    }

    /// Position of a layer's tail, or the place where it belongs.
    fn tail_position(&self, layer: usize) -> (position: usize)
        requires
            crate::cache_residency::catalog::tails_ordered(self.tails@),
        ensures
            position <= self.tails@.len(),
            forall|i: int| 0 <= i < position ==> (#[trigger] self.tails@[i]).global_layer < layer,
            has_tail(self.tails@, layer) <==> position < self.tails@.len()
                && self.tails@[position as int].global_layer == layer,
            forall|i: int|
                position <= i < self.tails@.len() ==> layer <= (
                #[trigger] self.tails@[i]).global_layer,
    {
        let mut index: usize = 0;
        while index < self.tails.len() && self.tails[index].global_layer < layer
            invariant
                index <= self.tails@.len(),
                forall|i: int| 0 <= i < index ==> (#[trigger] self.tails@[i]).global_layer < layer,
            decreases self.tails@.len() - index,
        {
            index = index + 1;
        }
        proof {
            if index < self.tails@.len() {
                assert forall|i: int| index <= i < self.tails@.len() implies layer <= (
                #[trigger] self.tails@[i]).global_layer by {
                    if i > index {
                        assert(self.tails@[index as int].global_layer
                            < self.tails@[i].global_layer);
                    }
                }
            }
            if has_tail(self.tails@, layer) {
                let i = choose|i: int|
                    0 <= i < self.tails@.len() && (#[trigger] self.tails@[i]).global_layer == layer;
                if i > index {
                    assert(self.tails@[index as int].global_layer < self.tails@[i].global_layer);
                }
            }
        }
        index
    }

    /// Sets the tail of a layer.
    pub(crate) fn put_tail(&mut self, tail: CacheTail) -> (previous: Option<CacheTail>)
        requires
            old(self).wf(),
        ensures
            final(self).wf(),
            previous == tail_of(old(self).tails@, tail.global_layer),
            forall|layer: usize| #[trigger]
                tail_of(final(self).tails@, layer) == if layer == tail.global_layer {
                    Some(tail)
                } else {
                    tail_of(old(self).tails@, layer)
                },
            final(self).parts().len() <= old(self).parts().len() + 1,
            crate::cache_residency::report::bytes_of(final(self).parts())
                <= crate::cache_residency::report::bytes_of(old(self).parts()) + tail.bytes,
            crate::cache_residency::report::tokens_of(final(self).parts())
                <= crate::cache_residency::report::tokens_of(old(self).parts())
                + crate::cache_residency::report::tokens_before(tail.end),
            *final(self) == (CacheResidencyManager { tails: final(self).tails, ..*old(self) }),
    {
        let ghost before = self.tails@;
        let ghost earlier = *self;
        let index: usize = self.tail_position(tail.global_layer);
        if index < self.tails.len() && self.tails[index].global_layer == tail.global_layer {
            let previous = self.tails[index];
            self.tails[index] = tail;
            proof {
                let after = self.tails@;
                tail_is(before, index as int);
                tail_is(after, index as int);
                assert forall|layer: usize| #[trigger]
                    tail_of(after, layer) == if layer == tail.global_layer {
                        Some(tail)
                    } else {
                        tail_of(before, layer)
                    } by {
                    if layer != tail.global_layer {
                        other_tails_agree(
                            before,
                            after,
                            tail.global_layer,
                            layer,
                            |i: int| i,
                            |i: int| i,
                        );
                    }
                }
                tail_update_weight(earlier, *self, index as int, tail);
            }
            Some(previous)
        } else {
            self.tails.insert(index, tail);
            proof {
                let after = self.tails@;
                before.insert_ensures(index as int, tail);
                assert forall|i: int, j: int| 0 <= i < j < after.len() implies (
                #[trigger] after[i]).global_layer < (#[trigger] after[j]).global_layer by {
                    let a = if i < index {
                        i
                    } else {
                        i - 1
                    };
                    let b = if j < index {
                        j
                    } else {
                        j - 1
                    };
                    if i == index {
                        assert(after[j] == before[b]);
                        assert(before[b].global_layer != tail.global_layer) by {
                            if before[b].global_layer == tail.global_layer {
                                assert(has_tail(before, tail.global_layer));
                            }
                        }
                    } else if j == index {
                        assert(after[i] == before[a]);
                    } else {
                        assert(after[i] == before[a] && after[j] == before[b]);
                    }
                }
                tail_is(after, index as int);
                let forward = |i: int|
                    if i < index {
                        i
                    } else {
                        i + 1
                    };
                let backward = |i: int|
                    if i < index {
                        i
                    } else {
                        i - 1
                    };
                assert forall|layer: usize| #[trigger]
                    tail_of(after, layer) == if layer == tail.global_layer {
                        Some(tail)
                    } else {
                        tail_of(before, layer)
                    } by {
                    if layer != tail.global_layer {
                        other_tails_agree(
                            before,
                            after,
                            tail.global_layer,
                            layer,
                            forward,
                            backward,
                        );
                    }
                }
                tail_insert_weight(earlier, *self, index as int, tail);
            }
            None
        }
    }

    /// Removes the tail of a layer that has one.
    fn drop_tail(&mut self, layer: usize)
        requires
            old(self).wf(),
            has_tail(old(self).tails@, layer),
        ensures
            final(self).wf(),
            forall|other: usize| #[trigger]
                tail_of(final(self).tails@, other) == if other == layer {
                    None
                } else {
                    tail_of(old(self).tails@, other)
                },
            final(self).weighs_at_most(*old(self)),
            *final(self) == (CacheResidencyManager { tails: final(self).tails, ..*old(self) }),
    {
        let ghost before = self.tails@;
        let ghost earlier = *self;
        let index: usize = self.tail_position(layer);
        let tail = self.tails.remove(index);
        proof {
            let after = self.tails@;
            assert forall|i: int, j: int| 0 <= i < j < after.len() implies (
            #[trigger] after[i]).global_layer < (#[trigger] after[j]).global_layer by {
                let a = if i < index {
                    i
                } else {
                    i + 1
                };
                let b = if j < index {
                    j
                } else {
                    j + 1
                };
                assert(after[i] == before[a] && after[j] == before[b]);
            }
            let forward = |i: int|
                if i < index {
                    i
                } else {
                    i - 1
                };
            let backward = |i: int|
                if i < index {
                    i
                } else {
                    i + 1
                };
            assert(!has_tail(after, layer)) by {
                if has_tail(after, layer) {
                    let i = choose|i: int|
                        0 <= i < after.len() && (#[trigger] after[i]).global_layer == layer;
                    assert(before[backward(i)] == after[i]);
                    tail_is(before, backward(i));
                    tail_is(before, index as int);
                    if backward(i) < index {
                        assert(before[backward(i)].global_layer
                            < before[index as int].global_layer);
                    } else {
                        assert(before[index as int].global_layer
                            < before[backward(i)].global_layer);
                    }
                }
            }
            assert forall|other: usize| #[trigger]
                tail_of(after, other) == if other == layer {
                    None
                } else {
                    tail_of(before, other)
                } by {
                if other != layer {
                    other_tails_agree(before, after, layer, other, forward, backward);
                }
            }
            assert(after.insert(index as int, tail) =~= before);
            tail_insert_weight(*self, earlier, index as int, tail);
        }
    }

    /// Records the tail of a layer. The caller then rebalances, and undoes the update
    /// where that fails.
    pub fn begin_tail_update(&mut self, layer: usize, bytes: u64, end: i64) -> (update: TailUpdate)
        requires
            old(self).wf(),
            old(self).room_for(
                1,
                bytes as int,
                crate::cache_residency::report::tokens_before(end),
            ),
            old(self).report.tail_allocations < u64::MAX,
        ensures
            final(self).wf(),
            final(self).fits(),
            update.global_layer == layer,
            update.previous == tail_of(old(self).tails@, layer),
            update.allocated == (bytes > 0 && (update.previous matches Some(tail) ==> tail.bytes
                == 0)),
            forall|other: usize| #[trigger]
                tail_of(final(self).tails@, other) == if other == layer {
                    Some(CacheTail { global_layer: layer, bytes, end })
                } else {
                    tail_of(old(self).tails@, other)
                },
            final(self).report == (CacheResidencyReport {
                tail_allocations: (old(self).report.tail_allocations + if update.allocated {
                    1int
                } else {
                    0
                }) as u64,
                ..old(self).report
            }),
            *final(self) == (CacheResidencyManager {
                tails: final(self).tails,
                report: final(self).report,
                ..*old(self)
            }),
    {
        let previous = self.put_tail(CacheTail { global_layer: layer, bytes, end });
        let empty_before = match previous {
            Some(tail) => tail.bytes == 0,
            None => true,
        };
        let allocated = empty_before && bytes > 0;
        let ghost earlier = *self;
        if allocated {
            self.report.tail_allocations = self.report.tail_allocations + 1;
        }
        assert(self.parts() == earlier.parts());
        TailUpdate { global_layer: layer, previous, allocated }
    }

    /// Restores the tail that an update replaced.
    pub fn undo_tail_update(&mut self, update: &TailUpdate)
        requires
            old(self).wf(),
            update.previous matches Some(tail) ==> tail.global_layer == update.global_layer
                && old(self).room_for(
                1,
                tail.bytes as int,
                crate::cache_residency::report::tokens_before(tail.end),
            ),
            old(self).fits(),
        ensures
            final(self).wf(),
            forall|layer: usize| #[trigger]
                tail_of(final(self).tails@, layer) == if layer == update.global_layer {
                    update.previous
                } else {
                    tail_of(old(self).tails@, layer)
                },
            final(self).reports(
                CacheResidencyReport {
                    tail_allocations: if update.allocated && old(self).report.tail_allocations
                        > 0 {
                        (old(self).report.tail_allocations - 1) as u64
                    } else {
                        old(self).report.tail_allocations
                    },
                    ..old(self).report
                },
            ),
            *final(self) == (CacheResidencyManager {
                tails: final(self).tails,
                report: final(self).report,
                ..*old(self)
            }),
    {
        match update.previous {
            Some(previous) => {
                self.put_tail(previous);
            },
            None => {
                let index: usize = self.tail_position(update.global_layer);
                if index < self.tails.len() && self.tails[index].global_layer
                    == update.global_layer {
                    assert(has_tail(self.tails@, update.global_layer));
                    self.drop_tail(update.global_layer);
                }
            },
        }
        let ghost earlier = *self;
        if update.allocated && self.report.tail_allocations > 0 {
            self.report.tail_allocations = self.report.tail_allocations - 1;
        }
        assert(self.parts() == earlier.parts());
        self.update_report_totals();
    }

    /// Catalogs a block where it belongs.
    pub(crate) fn put_block(&mut self, record: CacheBlockRecord)
        requires
            old(self).wf(),
            !old(self).has_block(record.id),
            record.placed(),
            record.pending_disk is None,
        ensures
            final(self).wf(),
            final(self).blocks@ == old(self).blocks@.insert(
                block_position(old(self).blocks@, record.id),
                record,
            ),
            0 <= block_position(old(self).blocks@, record.id) <= old(self).blocks@.len(),
            final(self).parts().len() == old(self).parts().len() + 1,
            crate::cache_residency::report::bytes_of(final(self).parts())
                == crate::cache_residency::report::bytes_of(old(self).parts()) + record.bytes,
            crate::cache_residency::report::tokens_of(final(self).parts())
                == crate::cache_residency::report::tokens_of(old(self).parts())
                + crate::cache_residency::report::tokens_before(record.id.end),
            *final(self) == (CacheResidencyManager { blocks: final(self).blocks, ..*old(self) }),
    {
        let ghost before = self.blocks@;
        let ghost earlier = *self;
        let position: usize = self.insertion_point(&record.id);
        proof {
            block_position_is(before, record.id, position as int);
            crate::cache_residency::catalog::insertion_keeps_order(
                before,
                position as int,
                record,
            );
            before.insert_ensures(position as int, record);
        }
        let ghost stored = record;
        self.blocks.insert(position, record);
        proof {
            let after = self.blocks@;
            assert forall|i: int| 0 <= i < after.len() implies (#[trigger] after[i]).placed() && (
            after[i].pending_disk matches Some(ticket) ==> self.worker.knows(ticket)) by {
                if i != position {
                    let source = if i < position {
                        i
                    } else {
                        i - 1
                    };
                    assert(after[i] == before[source]);
                    assert(before[source].placed());
                }
            }
            crate::cache_residency::report::block_insertion_weight(
                earlier,
                *self,
                position as int,
                stored,
            );
        }
    }

    /// Builds the record of a freshly sealed block.
    pub(crate) fn sealed_record(
        id: CacheBlockId,
        arrays: CacheBlockArrays,
        last_access: u64,
        protected_prefix: bool,
    ) -> (record: CacheBlockRecord)
        requires
            arrays.size() <= u64::MAX,
        ensures
            freshly_sealed(record, id, arrays, last_access, protected_prefix),
            record.placed(),
    {
        let bytes: u64 = arrays.bytes();
        let first_shape = copy_shape(&arrays.first().shape);
        let second_shape = copy_shape(&arrays.second().shape);
        let first_dtype = arrays.first().dtype.clone();
        let second_dtype = arrays.second().dtype.clone();
        CacheBlockRecord {
            id,
            tier: CacheTier::Device,
            arrays: Some(arrays),
            disk: None,
            bytes,
            first_shape,
            second_shape,
            first_dtype,
            second_dtype,
            imported: false,
            leases: 0,
            access_count: 0,
            last_access,
            protected_prefix,
            pending_disk: None,
        }
    }

    /// Catalogs a sealed block on the device. The caller then rebalances with the block
    /// required, and aborts the seal where that fails.
    pub fn begin_seal(
        &mut self,
        global_layer: usize,
        start: i64,
        end: i64,
        rank: Option<CacheRankIdentity>,
        arrays: CacheBlockArrays,
        protected_prefix: bool,
    ) -> (outcome: Result<CacheBlockId, CacheResidencyError>)
        requires
            old(self).wf(),
            0 <= start < end ==> arrays.comparable(end - start),
            arrays.size() <= u64::MAX,
            old(self).access_clock < u64::MAX,
            old(self).room_for(
                1,
                arrays.size(),
                crate::cache_residency::report::tokens_before(end),
            ),
        ensures
            final(self).wf(),
            final(self).fits(),
            ({
                let id = CacheBlockId {
                    session_id: old(self).session_id,
                    global_layer,
                    representation: arrays.stored(),
                    start,
                    end,
                    rank,
                };
                &&& crate::cache_residency::error::failure_of(outcome) == seal_failure(
                    *old(self),
                    id,
                    arrays,
                )
                &&& outcome is Err ==> *final(self) == *old(self)
                &&& outcome matches Ok(sealed) ==> {
                    let position = block_position(old(self).blocks@, id);
                    &&& sealed == id
                    &&& final(self).has_block(id)
                    &&& freshly_sealed(
                        final(self).block(id),
                        id,
                        arrays,
                        (old(self).access_clock + 1) as u64,
                        protected_prefix,
                    )
                    &&& final(self).access_clock == old(self).access_clock + 1
                    &&& final(self).blocks@ == old(self).blocks@.insert(
                        position,
                        final(self).block(id),
                    )
                    &&& *final(self) == (CacheResidencyManager {
                        blocks: final(self).blocks,
                        access_clock: final(self).access_clock,
                        ..*old(self)
                    })
                }
            }),
    {
        let representation = arrays.representation();
        let id = CacheBlockId {
            session_id: self.session_id,
            global_layer,
            representation,
            start,
            end,
            rank,
        };
        match check_seal(start, end, &arrays) {
            Ok(_) => {},
            Err(error) => {
                return Err(error);
            },
        }
        if self.find_block(&id).is_some() {
            return Err(CacheResidencyError::DuplicateBlock(id));
        }
        let ghost stored = arrays;
        self.access_clock = self.access_clock + 1;
        let record = Self::sealed_record(id, arrays, self.access_clock, protected_prefix);
        assert(self.parts() == old(self).parts());
        self.put_block(record);
        proof {
            let position = block_position(old(self).blocks@, id);
            assert(self.blocks@[position] == record);
            self.block_index_is(position);
        }
        Ok(id)
    }

    /// Takes back a seal that could not be admitted. Answers the live shard file of the
    /// block, when it has one, and counts the cancellation of its pending operation.
    pub fn abort_seal(&mut self, id: &CacheBlockId) -> (obsolete_files: Vec<String>)
        requires
            old(self).wf(),
            old(self).fits(),
            old(self).report.cancellations < u64::MAX,
        ensures
            final(self).wf(),
            !old(self).has_block(*id) ==> obsolete_files@.len() == 0 && final(self).reports(
                old(self).report,
            ) && *final(self) == (CacheResidencyManager {
                report: final(self).report,
                ..*old(self)
            }),
            old(self).has_block(*id) ==> {
                let record = old(self).block(*id);
                let cancels = record.pending_disk matches Some(ticket) && old(self).worker.pending(
                    ticket,
                );
                &&& obsolete_files@ == crate::cache_residency::generation::live_files(seq![record])
                &&& final(self).blocks@ == old(self).blocks@.remove(old(self).block_index(*id))
                &&& final(self).worker.completions@ == (match record.pending_disk {
                    Some(ticket) => old(self).worker.settled(
                        ticket,
                        crate::cache_residency::worker::DiskCompletionState::Cancelled,
                    ),
                    None => old(self).worker.completions@,
                })
                &&& final(self).worker == (DiskWorker {
                    completions: final(self).worker.completions,
                    ..old(self).worker
                })
                &&& final(self).reports(
                    CacheResidencyReport {
                        cancellations: (old(self).report.cancellations + if cancels {
                            1int
                        } else {
                            0
                        }) as u64,
                        ..old(self).report
                    },
                )
                &&& *final(self) == (CacheResidencyManager {
                    blocks: final(self).blocks,
                    worker: final(self).worker,
                    report: final(self).report,
                    ..*old(self)
                })
            },
    {
        let mut obsolete_files: Vec<String> = Vec::new();
        match self.find_block(id) {
            Some(index) => {
                let pending = self.blocks[index].pending_disk;
                proof {
                    assert(self.blocks@[index as int].pending_disk matches Some(ticket)
                        ==> self.worker.knows(ticket));
                }
                match pending {
                    Some(ticket) => {
                        if self.worker.cancel(&ticket) {
                            self.report.cancellations = self.report.cancellations + 1;
                        }
                    },
                    None => {},
                }
                proof {
                    assert(self.parts() == old(self).parts());
                    assert forall|i: int| 0 <= i < self.blocks@.len() implies ((
                    #[trigger] self.blocks@[i]).pending_disk matches Some(ticket)
                        ==> self.worker.knows(ticket)) by {
                        assert(old(self).blocks@[i].pending_disk matches Some(ticket) ==> old(
                            self,
                        ).worker.knows(ticket));
                    }
                    assert forall|i: int|
                        0 <= i < self.host_write_reservations@.len() implies self.worker.knows(
                        (#[trigger] self.host_write_reservations@[i]).ticket,
                    ) by {
                        assert(old(self).worker.knows(
                            old(self).host_write_reservations@[i].ticket,
                        ));
                    }
                    assert(self.report.activity() == old(self).report.activity());
                }
                let record = self.take_block(index);
                crate::cache_residency::generation::push_live_file(&mut obsolete_files, &record);
                proof {
                    let one = seq![record];
                    assert(one.drop_last() =~= Seq::empty());
                    assert(crate::cache_residency::generation::live_files(one.drop_last())
                        =~= Seq::empty());
                    assert(obsolete_files@ =~= crate::cache_residency::generation::live_files(
                        one,
                    ));
                }
            },
            None => {},
        }
        self.update_report_totals();
        obsolete_files
    }

    /// Counts a completed seal.
    pub fn finish_seal(&mut self)
        requires
            old(self).wf(),
            old(self).report.block_seals < u64::MAX,
        ensures
            final(self).wf(),
            final(self).weighs_as(*old(self)),
            *final(self) == (CacheResidencyManager {
                report: CacheResidencyReport {
                    block_seals: (old(self).report.block_seals + 1) as u64,
                    ..old(self).report
                },
                ..*old(self)
            }),
    {
        self.report.block_seals = self.report.block_seals + 1;
        assert(self.parts() == old(self).parts());
        assert(self.report.activity() == old(self).report.activity());
    }
}

/// A tail update that is undone leaves no trace: every layer has the tail that it had,
/// and no allocation is counted.
pub proof fn undone_tail_updates_leave_no_trace(
    before: CacheResidencyManager,
    updated: CacheResidencyManager,
    undone: CacheResidencyManager,
    update: TailUpdate,
    layer: usize,
)
    requires
        update.previous == tail_of(before.tails@, update.global_layer),
        layer != update.global_layer ==> tail_of(updated.tails@, layer) == tail_of(
            before.tails@,
            layer,
        ),
        updated.report.tail_allocations == before.report.tail_allocations + (if update.allocated {
            1int
        } else {
            0
        }),
        tail_of(undone.tails@, layer) == (if layer == update.global_layer {
            update.previous
        } else {
            tail_of(updated.tails@, layer)
        }),
        undone.reports(
            CacheResidencyReport {
                tail_allocations: if update.allocated && updated.report.tail_allocations > 0 {
                    (updated.report.tail_allocations - 1) as u64
                } else {
                    updated.report.tail_allocations
                },
                ..updated.report
            },
        ),
    ensures
        tail_of(undone.tails@, layer) == tail_of(before.tails@, layer),
        undone.report.tail_allocations == before.report.tail_allocations,
{
}

} // verus!
