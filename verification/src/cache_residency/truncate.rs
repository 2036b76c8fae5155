//! Visible blocks of a layer and transactional truncation.

use vstd::prelude::*;
use vstd::string::StringExecFns;

use crate::cache_residency::block::{
    CacheBlockArrays, CacheBlockId, CacheRepresentation, CacheTier,
};
use crate::cache_residency::catalog::{CacheBlockRecord, CacheResidencyManager, CacheTail};
use crate::cache_residency::error::{CacheFailure, CacheResidencyError};
use crate::cache_residency::generation::{BlockSelection, GenerationChange};
use crate::cache_residency::stats::CacheResidencyReport;

verus! {

/// The block that crosses a truncation boundary, and the arrays of its kept part.
#[derive(Debug)]
pub struct TrailingReplacement {
    /// Crossing block, leased by the caller.
    pub block: CacheBlockId,
    /// Arrays of the tokens before the boundary.
    pub arrays: CacheBlockArrays,
}

/// Whether attention over a window and a pinned prefix sees a block.
pub open spec fn is_visible(
    id: CacheBlockId,
    layer: usize,
    representation: CacheRepresentation,
    visible_start: i64,
    visible_end: i64,
    prefix_tokens: i64,
) -> bool {
    &&& id.global_layer == layer
    &&& id.representation == representation
    &&& id.start < visible_end
    &&& id.end > visible_start || id.start < prefix_tokens
}

/// Identities of blocks, in order.
pub open spec fn block_ids(blocks: Seq<CacheBlockRecord>) -> Seq<CacheBlockId> {
    blocks.map_values(|record: CacheBlockRecord| record.id)
}

/// The largest end among the blocks of a layer, and zero without blocks.
pub open spec fn largest_end(
    blocks: Seq<CacheBlockRecord>,
    layer: usize,
    representation: CacheRepresentation,
) -> Option<i64>
    decreases blocks.len(),
{
    if blocks.len() == 0 {
        None
    } else {
        let rest = largest_end(blocks.drop_last(), layer, representation);
        let id = blocks.last().id;
        if id.global_layer == layer && id.representation == representation {
            match rest {
                Some(end) => if end >= id.end {
                    Some(end)
                } else {
                    Some(id.end)
                },
                None => Some(id.end),
            }
        } else {
            rest
        }
    }
}

/// The first block that ends behind a boundary and starts before it.
pub open spec fn first_crossing(
    blocks: Seq<CacheBlockRecord>,
    selection: BlockSelection,
    end: i64,
) -> Option<CacheBlockId>
    decreases blocks.len(),
{
    if blocks.len() == 0 {
        None
    } else if selection.selects(blocks[0]) && blocks[0].id.start < end {
        Some(blocks[0].id)
    } else {
        first_crossing(blocks.drop_first(), selection, end)
    }
}

/// Why the leases of the blocks behind a boundary forbid truncation, if they do: only
/// the crossing block may be leased, once, and only while it is on the device.
pub open spec fn lease_failure(
    blocks: Seq<CacheBlockRecord>,
    selection: BlockSelection,
    crossing: Option<CacheBlockId>,
) -> Option<CacheFailure>
    decreases blocks.len(),
{
    if blocks.len() == 0 {
        None
    } else {
        let record = blocks[0];
        let owned = crossing == Some(record.id);
        if selection.selects(record) && record.leases != (if owned {
            1usize
        } else {
            0usize
        }) {
            Some(CacheFailure::BlockLeased(record.id))
        } else if selection.selects(record) && owned && record.tier != CacheTier::Device {
            Some(
                CacheFailure::Runtime("truncated cache replacement lease is not device resident"@),
            )
        } else {
            lease_failure(blocks.drop_first(), selection, crossing)
        }
    }
}

/// Whether a replacement is the part of a block of the layer that crosses the boundary.
pub open spec fn replaces_crossing(
    layer: usize,
    representation: CacheRepresentation,
    end: i64,
    replacement: TrailingReplacement,
) -> bool {
    let block = replacement.block;
    block.global_layer == layer && block.representation == representation && block.start < end
        < block.end && replacement.arrays.stored() == representation
}

/// Why a replacement does not fit a truncation on its own account, if it does not.
pub open spec fn replacement_failure(
    layer: usize,
    representation: CacheRepresentation,
    end: i64,
    replacement: Option<TrailingReplacement>,
) -> Option<CacheFailure> {
    match replacement {
        None => None,
        Some(replacement) => if !replaces_crossing(layer, representation, end, replacement) {
            Some(
                CacheFailure::ArrayMismatch(
                    "trailing cache replacement does not match the truncated layer"@,
                ),
            )
        } else {
            crate::cache_residency::block::block_arrays_failure(
                replacement.arrays,
                end - replacement.block.start,
            )
        },
    }
}

/// Whether a replacement can be checked against a truncation.
pub open spec fn replacement_comparable(
    layer: usize,
    representation: CacheRepresentation,
    end: i64,
    replacement: Option<TrailingReplacement>,
) -> bool {
    replacement matches Some(replacement) ==> replaces_crossing(
        layer,
        representation,
        end,
        replacement,
    ) ==> end - replacement.block.start <= i64::MAX && replacement.arrays.comparable(
        end - replacement.block.start,
    )
}

/// Checks that a replacement is the kept part of a block of the truncated layer.
pub fn check_replacement(
    layer: usize,
    representation: CacheRepresentation,
    end: i64,
    replacement: &Option<TrailingReplacement>,
) -> (outcome: Result<(), CacheResidencyError>)
    requires
        replacement_comparable(layer, representation, end, *replacement),
    ensures
        crate::cache_residency::error::failure_of(outcome) == replacement_failure(
            layer,
            representation,
            end,
            *replacement,
        ),
{
    match replacement {
        Some(replacement) => {
            let block = replacement.block;
            if block.global_layer != layer || block.representation != representation || block.start
                >= end || block.end <= end || replacement.arrays.representation()
                != representation {
                return Err(
                    CacheResidencyError::ArrayMismatch(
                        "trailing cache replacement does not match the truncated layer".to_owned(),
                    ),
                );
            }
            replacement.arrays.validate(end - block.start)
        },
        None => Ok(()),
    }
}

/// The identity of the kept part of the crossing block.
pub open spec fn replacement_id(
    session_id: u64,
    block: CacheBlockId,
    end: i64,
) -> CacheBlockId {
    CacheBlockId { session_id, end, ..block }
}

/// The crossing block that a replacement names.
pub open spec fn replaced(replacement: Option<TrailingReplacement>) -> Option<CacheBlockId> {
    match replacement {
        Some(replacement) => Some(replacement.block),
        None => None,
    }
}

/// Why a layer cannot be truncated, if it cannot. A background failure comes first
/// once the request itself is well formed.
pub open spec fn truncation_failure(
    manager: CacheResidencyManager,
    layer: usize,
    representation: CacheRepresentation,
    end: i64,
    replacement: Option<TrailingReplacement>,
) -> Option<CacheFailure> {
    let selection = BlockSelection::Behind { layer, representation, end };
    let malformed = replacement_failure(layer, representation, end, replacement);
    let leased = lease_failure(manager.blocks@, selection, replaced(replacement));
    if end < 0 {
        Some(CacheFailure::InvalidTokenRange(0, end))
    } else if malformed is Some {
        malformed
    } else if manager.background_disk_error is Some {
        Some(
            CacheFailure::Runtime(
                "background cache disk write failed: "@
                    + manager.background_disk_error->Some_0@,
            ),
        )
    } else if first_crossing(manager.blocks@, selection, end) != replaced(replacement) {
        Some(
            CacheFailure::ArrayMismatch(
                "trailing cache replacement does not match the block crossing the truncation boundary"@,
            ),
        )
    } else if leased is Some {
        leased
    } else if replacement is Some && manager.has_block(
        replacement_id(manager.session_id, replacement->Some_0.block, end),
    ) {
        Some(
            CacheFailure::DuplicateBlock(
                replacement_id(manager.session_id, replacement->Some_0.block, end),
            ),
        )
    } else {
        None
    }
}

/// The message for a failure of a background write.
pub(crate) fn background_failure(error: &str) -> (failure: CacheResidencyError)
    ensures
        failure@ == CacheFailure::Runtime("background cache disk write failed: "@ + error@),
{
    let mut text = "background cache disk write failed: ".to_owned();
    text.append(error);
    CacheResidencyError::Runtime(text)
}

impl CacheResidencyManager {
    /// The blocks of a layer that attention sees, in catalog order.
    pub open spec fn visible_ids(
        self,
        layer: usize,
        representation: CacheRepresentation,
        visible_start: i64,
        visible_end: i64,
        prefix_tokens: i64,
    ) -> Seq<CacheBlockId> {
        block_ids(self.blocks@).filter(
            |id: CacheBlockId|
                is_visible(id, layer, representation, visible_start, visible_end, prefix_tokens),
        )
    }

    /// Lists the blocks of a layer that attention sees, in catalog order.
    pub fn layer_block_ids(
        &self,
        layer: usize,
        representation: CacheRepresentation,
        visible_start: i64,
        visible_end: i64,
        prefix_tokens: i64,
    ) -> (ids: Vec<CacheBlockId>)
        ensures
            ids@ == self.visible_ids(
                layer,
                representation,
                visible_start,
                visible_end,
                prefix_tokens,
            ),
    {
        let ghost visible = |id: CacheBlockId|
            is_visible(id, layer, representation, visible_start, visible_end, prefix_tokens);
        let ghost all = block_ids(self.blocks@);
        let mut ids: Vec<CacheBlockId> = Vec::new();
        let mut index: usize = 0;
        proof {
            reveal(Seq::filter);
            assert(all.take(0).filter(visible) =~= Seq::empty());
        }
        while index < self.blocks.len()
            invariant
                index <= self.blocks@.len(),
                all == block_ids(self.blocks@),
                visible == (|id: CacheBlockId|
                    is_visible(
                        id,
                        layer,
                        representation,
                        visible_start,
                        visible_end,
                        prefix_tokens,
                    )),
                ids@ == all.take(index as int).filter(visible),
            decreases self.blocks@.len() - index,
        {
            let id = self.blocks[index].id;
            proof {
                reveal(Seq::filter);
                assert(all.take(index + 1).drop_last() =~= all.take(index as int));
                assert(all.take(index + 1).last() == id);
            }
            if id.global_layer == layer && id.representation == representation && id.start
                < visible_end && (id.end > visible_start || id.start < prefix_tokens) {
                ids.push(id);
            }
            index = index + 1;
        }
        assert(all.take(index as int) =~= all);
        ids
    }

    /// The exclusive end of a layer's sealed tokens.
    pub fn layer_end(&self, layer: usize, representation: CacheRepresentation) -> (end: i64)
        ensures
            end == (match largest_end(self.blocks@, layer, representation) {
                Some(end) => end,
                None => 0,
            }),
    {
        let mut best: Option<i64> = None;
        let mut index: usize = 0;
        while index < self.blocks.len()
            invariant
                index <= self.blocks@.len(),
                best == largest_end(self.blocks@.take(index as int), layer, representation),
            decreases self.blocks@.len() - index,
        {
            let id = self.blocks[index].id;
            assert(self.blocks@.take(index + 1).drop_last() =~= self.blocks@.take(index as int));
            if id.global_layer == layer && id.representation == representation {
                best = match best {
                    Some(end) => if end >= id.end {
                        Some(end)
                    } else {
                        Some(id.end)
                    },
                    None => Some(id.end),
                };
            }
            index = index + 1;
        }
        assert(self.blocks@.take(index as int) =~= self.blocks@);
        match best {
            Some(end) => end,
            None => 0,
        }
    }

    fn find_crossing(&self, selection: &BlockSelection, end: i64) -> (crossing: Option<
        CacheBlockId,
    >)
        ensures
            crossing == first_crossing(self.blocks@, *selection, end),
    {
        let mut index: usize = 0;
        proof {
            assert(self.blocks@.skip(0) =~= self.blocks@);
        }
        while index < self.blocks.len()
            invariant
                index <= self.blocks@.len(),
                first_crossing(self.blocks@, *selection, end) == first_crossing(
                    self.blocks@.skip(index as int),
                    *selection,
                    end,
                ),
            decreases self.blocks@.len() - index,
        {
            let ghost rest = self.blocks@.skip(index as int);
            assert(rest[0] == self.blocks@[index as int]);
            assert(rest.drop_first() =~= self.blocks@.skip(index + 1));
            if selection.is_selected(&self.blocks[index]) && self.blocks[index].id.start < end {
                return Some(self.blocks[index].id);
            }
            index = index + 1;
        }
        None
    }

    fn check_leases(&self, selection: &BlockSelection, crossing: Option<CacheBlockId>) -> (outcome:
        Result<(), CacheResidencyError>)
        ensures
            crate::cache_residency::error::failure_of(outcome) == lease_failure(
                self.blocks@,
                *selection,
                crossing,
            ),
    {
        let mut index: usize = 0;
        proof {
            assert(self.blocks@.skip(0) =~= self.blocks@);
        }
        while index < self.blocks.len()
            invariant
                index <= self.blocks@.len(),
                lease_failure(self.blocks@, *selection, crossing) == lease_failure(
                    self.blocks@.skip(index as int),
                    *selection,
                    crossing,
                ),
            decreases self.blocks@.len() - index,
        {
            let ghost rest = self.blocks@.skip(index as int);
            assert(rest[0] == self.blocks@[index as int]);
            assert(rest.drop_first() =~= self.blocks@.skip(index + 1));
            let record = &self.blocks[index];
            if selection.is_selected(record) {
                let owned = match crossing {
                    Some(id) => id == record.id,
                    None => false,
                };
                let expected: usize = if owned {
                    1
                } else {
                    0
                };
                if record.leases != expected {
                    return Err(CacheResidencyError::BlockLeased(record.id));
                }
                if owned && record.tier != CacheTier::Device {
                    return Err(
                        CacheResidencyError::Runtime(
                            "truncated cache replacement lease is not device resident".to_owned(),
                        ),
                    );
                }
            }
            index = index + 1;
        }
        Ok(())
    }

    /// Truncates a layer at a boundary in one step: every block behind it leaves, the
    /// kept part of the crossing block takes its place, and the tail is reset. Where
    /// anything is wrong nothing changes, except that a background failure is taken.
    pub fn truncate_layer_transaction(
        &mut self,
        layer: usize,
        representation: CacheRepresentation,
        end: i64,
        replacement: Option<TrailingReplacement>,
        protected_prefix_tokens: i64,
    ) -> (outcome: Result<GenerationChange, CacheResidencyError>)
        requires
            old(self).wf(),
            old(self).can_count_cancellations(),
            old(self).access_clock < u64::MAX,
            old(self).report.block_seals < u64::MAX,
            end >= 0 ==> replacement_comparable(layer, representation, end, replacement),
            replacement matches Some(replacement) ==> replacement.arrays.size() <= u64::MAX,
            old(self).room_for(
                2,
                if replacement is Some {
                    replacement->Some_0.arrays.size()
                } else {
                    0
                },
                2 * crate::cache_residency::report::tokens_before(end),
            ),
        ensures
            final(self).wf(),
            crate::cache_residency::error::failure_of(outcome) == truncation_failure(
                *old(self),
                layer,
                representation,
                end,
                replacement,
            ),
            outcome is Err ==> {
                let malformed = end < 0 || replacement_failure(
                    layer,
                    representation,
                    end,
                    replacement,
                ) is Some;
                *final(self) == (CacheResidencyManager {
                    background_disk_error: if malformed {
                        old(self).background_disk_error
                    } else {
                        None
                    },
                    ..*old(self)
                })
            },
            outcome matches Ok(change) ==> {
                let selection = BlockSelection::Behind { layer, representation, end };
                let kept = old(self).blocks_after_cancelling().filter(
                    |record: CacheBlockRecord| !selection.selects(record),
                );
                let id = replacement_id(old(self).session_id, replacement->Some_0.block, end);
                let sealed: int = if replacement is Some {
                    1
                } else {
                    0
                };
                &&& final(self).follows(*old(self))
                &&& final(self).fits()
                &&& forall|other: usize| #[trigger]
                    crate::cache_residency::append::tail_of(final(self).tails@, other) == if other
                        == layer {
                        Some(CacheTail { global_layer: layer, bytes: 0, end })
                    } else {
                        crate::cache_residency::append::tail_of(old(self).tails@, other)
                    }
                &&& final(self).access_clock == old(self).access_clock + sealed
                &&& replacement is None ==> final(self).blocks@ == kept
                &&& replacement is Some ==> final(self).has_block(id)
                    && crate::cache_residency::append::freshly_sealed(
                    final(self).block(id),
                    id,
                    replacement->Some_0.arrays,
                    final(self).access_clock,
                    end <= protected_prefix_tokens,
                ) && final(self).blocks@ == kept.insert(
                    crate::cache_residency::append::block_position(kept, id),
                    final(self).block(id),
                )
                &&& final(self).reports(
                    CacheResidencyReport {
                        block_seals: (old(self).report.block_seals + sealed) as u64,
                        ..old(self).report_after_cancelling()
                    },
                )
                &&& change.tickets@ == crate::cache_residency::generation::pending_tickets(
                    old(self).blocks@,
                )
                &&& change.obsolete_files@ == crate::cache_residency::generation::live_files(
                    old(self).blocks_after_cancelling().filter(
                        |record: CacheBlockRecord| selection.selects(record),
                    ),
                )
                &&& *final(self) == (CacheResidencyManager {
                    generation: final(self).generation,
                    background_disk_error: final(self).background_disk_error,
                    access_clock: final(self).access_clock,
                    worker: final(self).worker,
                    blocks: final(self).blocks,
                    tails: final(self).tails,
                    report: final(self).report,
                    ..*old(self)
                })
            },
    {
        if end < 0 {
            return Err(CacheResidencyError::InvalidTokenRange { start: 0, end });
        }
        let selection = BlockSelection::Behind { layer, representation, end };
        match check_replacement(layer, representation, end, &replacement) {
            Ok(_) => {},
            Err(error) => {
                return Err(error);
            },
        }
        let crossing: Option<CacheBlockId> = match &replacement {
            Some(replacement) => Some(replacement.block),
            None => None,
        };
        match self.background_disk_error.take() {
            Some(error) => {
                return Err(background_failure(error.as_str()));
            },
            None => {},
        }
        if self.find_crossing(&selection, end) != crossing {
            return Err(
                CacheResidencyError::ArrayMismatch(
                    "trailing cache replacement does not match the block crossing the truncation boundary".to_owned(),
                ),
            );
        }
        match self.check_leases(&selection, crossing) {
            Ok(_) => {},
            Err(error) => {
                return Err(error);
            },
        }
        let kept_id: Option<CacheBlockId> = match crossing {
            Some(block) => {
                let id = CacheBlockId { session_id: self.session_id, end, ..block };
                if self.find_block(&id).is_some() {
                    return Err(CacheResidencyError::DuplicateBlock(id));
                }
                Some(id)
            },
            None => None,
        };
        assert(self.parts() == old(self).parts());
        let tickets = self.advance_generation();
        let ghost cancelled = self.blocks@;
        let removed = self.take_selected(&selection);
        let ghost kept = self.blocks@;
        let obsolete_files = crate::cache_residency::generation::collect_live_files(&removed);
        self.put_tail(CacheTail { global_layer: layer, bytes: 0, end });
        match replacement {
            Some(replacement) => {
                let id = match kept_id {
                    Some(id) => id,
                    None => replacement.block,
                };
                proof {
                    if self.has_block(id) {
                        let i = self.block_index(id);
                        assert(kept.contains(kept[i]));
                        let keep = |record: CacheBlockRecord| !selection.selects(record);
                        cancelled.lemma_filter_contains_rev(keep, kept[i]);
                        let j = choose|j: int| 0 <= j < cancelled.len() && cancelled[j] == kept[i];
                        assert(old(self).blocks@[j].id == id);
                        assert(old(self).has_block(id));
                    }
                }
                self.access_clock = self.access_clock + 1;
                let ghost stored = replacement.arrays;
                let record = Self::sealed_record(
                    id,
                    replacement.arrays,
                    self.access_clock,
                    end <= protected_prefix_tokens,
                );
                let ghost earlier = *self;
                self.put_block(record);
                self.report.block_seals = self.report.block_seals + 1;
                proof {
                    let position = crate::cache_residency::append::block_position(kept, id);
                    assert(self.blocks@[position] == record);
                    self.block_index_is(position);
                    assert(self.report.activity() == earlier.report.activity());
                }
            },
            None => {},
        }
        self.update_report_totals();
        Ok(GenerationChange { tickets, obsolete_files })
    }
}

/// What attention still sees is not discarded: a block that reaches into the window, or
/// that lies in the pinned prefix, stays. A block that crosses the end of the prefix
/// counts as seen but is not kept for it.
pub proof fn visible_blocks_are_not_discarded(
    record: CacheBlockRecord,
    layer: usize,
    representation: CacheRepresentation,
    visible_start: i64,
    visible_end: i64,
    prefix_tokens: i64,
)
    requires
        is_visible(
            record.id,
            layer,
            representation,
            visible_start,
            visible_end,
            prefix_tokens,
        ),
        !(record.id.start < prefix_tokens < record.id.end),
    ensures
        !(crate::cache_residency::generation::BlockSelection::Invisible {
            layer,
            representation,
            visible_start,
            prefix_tokens,
        }).selects(record),
{
}

/// Attention gets every block that holds a token it sees: one of the window, or one of the
/// pinned prefix that is already there.
pub proof fn attention_gets_every_token(
    manager: CacheResidencyManager,
    layer: usize,
    representation: CacheRepresentation,
    visible_start: i64,
    visible_end: i64,
    prefix_tokens: i64,
    index: int,
    token: int,
)
    requires
        0 <= index < manager.blocks@.len(),
        manager.blocks@[index].id.global_layer == layer,
        manager.blocks@[index].id.representation == representation,
        manager.blocks@[index].id.start <= token < manager.blocks@[index].id.end,
        visible_start <= token < visible_end || (token < prefix_tokens && token < visible_end),
    ensures
        manager.visible_ids(
            layer,
            representation,
            visible_start,
            visible_end,
            prefix_tokens,
        ).contains(manager.blocks@[index].id),
{
    broadcast use vstd::seq_lib::group_filter_ensures;

    let all = block_ids(manager.blocks@);
    let visible = |id: CacheBlockId|
        is_visible(id, layer, representation, visible_start, visible_end, prefix_tokens);
    assert(all[index] == manager.blocks@[index].id);
    assert(visible(all[index]));
    assert(all.filter(visible).contains(all[index]));
}

/// Attention gets nothing else: every listed block is one of the catalog, of that layer and
/// representation, and holds a token that attention sees, which is returned.
pub proof fn attention_gets_only_seen_blocks(
    manager: CacheResidencyManager,
    layer: usize,
    representation: CacheRepresentation,
    visible_start: i64,
    visible_end: i64,
    prefix_tokens: i64,
    id: CacheBlockId,
) -> (token: int)
    requires
        visible_start < visible_end,
        id.start < id.end,
        manager.visible_ids(
            layer,
            representation,
            visible_start,
            visible_end,
            prefix_tokens,
        ).contains(id),
    ensures
        manager.has_block(id),
        id.global_layer == layer,
        id.representation == representation,
        id.start <= token < id.end,
        visible_start <= token < visible_end || (token < prefix_tokens && token < visible_end),
{
    broadcast use vstd::seq_lib::group_filter_ensures;

    let all = block_ids(manager.blocks@);
    let visible = |id: CacheBlockId|
        is_visible(id, layer, representation, visible_start, visible_end, prefix_tokens);
    let listed = all.filter(visible);
    let at = choose|at: int| 0 <= at < listed.len() && listed[at] == id;
    assert(visible(listed[at]));
    all.lemma_filter_contains_rev(visible, id);
    let i = choose|i: int| 0 <= i < all.len() && all[i] == id;
    assert(manager.blocks@[i].id == id);
    if id.start < prefix_tokens {
        id.start as int
    } else if id.start < visible_start {
        visible_start as int
    } else {
        id.start as int
    }
}

/// Attention gets its blocks in catalog order, each of them once.
pub proof fn attention_gets_blocks_in_order(
    manager: CacheResidencyManager,
    layer: usize,
    representation: CacheRepresentation,
    visible_start: i64,
    visible_end: i64,
    prefix_tokens: i64,
    left: int,
    right: int,
)
    requires
        crate::cache_residency::catalog::blocks_ordered(manager.blocks@),
        0 <= left < right < manager.visible_ids(
            layer,
            representation,
            visible_start,
            visible_end,
            prefix_tokens,
        ).len(),
    ensures
        ({
            let ids = manager.visible_ids(
                layer,
                representation,
                visible_start,
                visible_end,
                prefix_tokens,
            );
            &&& crate::cache_residency::block::id_before(ids[left], ids[right])
            &&& ids[left] != ids[right]
        }),
{
    let visible = |id: CacheBlockId|
        is_visible(id, layer, representation, visible_start, visible_end, prefix_tokens);
    filtered_ids_keep_order(manager.blocks@, visible, left, right);
}

proof fn filtered_ids_keep_order(
    blocks: Seq<CacheBlockRecord>,
    kept: spec_fn(CacheBlockId) -> bool,
    left: int,
    right: int,
)
    requires
        crate::cache_residency::catalog::blocks_ordered(blocks),
        0 <= left < right < block_ids(blocks).filter(kept).len(),
    ensures
        crate::cache_residency::block::id_before(
            block_ids(blocks).filter(kept)[left],
            block_ids(blocks).filter(kept)[right],
        ),
        block_ids(blocks).filter(kept)[left] != block_ids(blocks).filter(kept)[right],
    decreases blocks.len(),
{
    reveal(Seq::filter);
    let all = block_ids(blocks);
    if blocks.len() > 0 {
        let before = blocks.drop_last();
        assert(block_ids(before) =~= all.drop_last());
        assert(crate::cache_residency::catalog::blocks_ordered(before)) by {
            assert forall|i: int, j: int|
                0 <= i < j < before.len() implies crate::cache_residency::block::id_before(
                (#[trigger] before[i]).id,
                (#[trigger] before[j]).id,
            ) by {
                assert(crate::cache_residency::block::id_before(blocks[i].id, blocks[j].id));
            }
        }
        let shorter = block_ids(before).filter(kept);
        if right < shorter.len() {
            filtered_ids_keep_order(before, kept, left, right);
        } else {
            assert(shorter.contains(shorter[left]));
            block_ids(before).lemma_filter_contains_rev(kept, shorter[left]);
            let i = choose|i: int|
                0 <= i < block_ids(before).len() && block_ids(before)[i] == shorter[left];
            assert(blocks[i].id == shorter[left]);
            assert(crate::cache_residency::block::id_before(
                blocks[i].id,
                blocks[blocks.len() - 1].id,
            ));
        }
    }
}

/// Sliding discards no token that attention still sees: a block that holds a token of the
/// window, or that ends within the pinned prefix, stays in the catalog; and a discarded
/// block is of that layer and representation, is not leased and was not imported.
pub proof fn discarding_spares_seen_tokens(
    record: CacheBlockRecord,
    layer: usize,
    representation: CacheRepresentation,
    visible_start: i64,
    prefix_tokens: i64,
    token: int,
)
    requires
        (BlockSelection::Invisible { layer, representation, visible_start, prefix_tokens }).selects(
            record,
        ),
        record.id.start <= token < record.id.end,
    ensures
        token < visible_start,
        prefix_tokens < record.id.end,
        record.id.global_layer == layer,
        record.id.representation == representation,
        record.leases == 0,
        !record.imported,
{
}

/// Sliding discards every block that may go: one whose last token lies before the window
/// and behind the pinned prefix, that no attention leases and that was not imported.
pub proof fn discarding_takes_unseen_blocks(
    record: CacheBlockRecord,
    visible_start: i64,
    prefix_tokens: i64,
)
    requires
        record.id.end - 1 < visible_start,
        prefix_tokens < record.id.end,
        record.leases == 0,
        !record.imported,
    ensures
        (BlockSelection::Invisible {
            layer: record.id.global_layer,
            representation: record.id.representation,
            visible_start,
            prefix_tokens,
        }).selects(record),
{
}

/// Truncation removes exactly the blocks of the layer that hold a token behind the
/// boundary; the crossing block is the one that also holds one before it.
pub proof fn truncation_removes_what_lies_behind(
    record: CacheBlockRecord,
    layer: usize,
    representation: CacheRepresentation,
    end: i64,
    token: int,
)
    requires
        record.id.start <= token < record.id.end,
    ensures
        token >= end && record.id.global_layer == layer && record.id.representation
            == representation ==> (BlockSelection::Behind { layer, representation, end }).selects(
            record,
        ),
        (BlockSelection::Behind { layer, representation, end }).selects(record) ==> {
            &&& record.id.global_layer == layer
            &&& record.id.representation == representation
            &&& record.id.end - 1 >= end
        },
{
}

/// A truncation loses nothing in front of its boundary: where it is accepted, every block
/// of the layer that lies wholly in front stays, a block that crosses the boundary is
/// replaced by a part of one that does, with arrays for exactly the tokens in front, and
/// no block that goes is in use by anyone else.
pub proof fn truncation_loses_nothing_in_front(
    manager: CacheResidencyManager,
    layer: usize,
    representation: CacheRepresentation,
    end: i64,
    replacement: Option<TrailingReplacement>,
    index: int,
)
    requires
        truncation_failure(manager, layer, representation, end, replacement) is None,
        0 <= index < manager.blocks@.len(),
        manager.blocks@[index].id.global_layer == layer,
        manager.blocks@[index].id.representation == representation,
    ensures
        end >= 0,
        manager.background_disk_error is None,
        ({
            let record = manager.blocks@[index];
            let goes = (BlockSelection::Behind { layer, representation, end }).selects(record);
            &&& goes <==> record.id.end > end
            &&& goes && record.id.start < end ==> replacement is Some
            &&& goes && (replacement is None || replacement->Some_0.block != record.id)
                ==> record.leases == 0
        }),
        replacement matches Some(kept) ==> {
            &&& kept.block.global_layer == layer
            &&& kept.block.representation == representation
            &&& kept.block.start < end < kept.block.end
            &&& kept.arrays.stored() == representation
            &&& crate::cache_residency::block::block_arrays_failure(
                kept.arrays,
                end - kept.block.start,
            ) is None
            &&& exists|i: int|
                0 <= i < manager.blocks@.len() && (#[trigger] manager.blocks@[i]).id == kept.block
        },
{
    let selection = BlockSelection::Behind { layer, representation, end };
    let crossing = crate::cache_residency::bookkeeping::crossing_blocks_cross(
        manager.blocks@,
        selection,
        end,
        index,
    );
    if selection.selects(manager.blocks@[index]) {
        crate::cache_residency::bookkeeping::truncated_blocks_are_not_in_use(
            manager.blocks@,
            selection,
            replaced(replacement),
            index,
        );
    }
    if replacement is Some {
        assert(manager.blocks@[crossing].id == replacement->Some_0.block);
    }
}

/// A truncation at a place where no block crosses needs no replacement, and is refused
/// only for a negative boundary, an earlier failure or a block in use.
pub proof fn truncations_between_blocks_need_no_replacement(
    manager: CacheResidencyManager,
    layer: usize,
    representation: CacheRepresentation,
    end: i64,
)
    requires
        end >= 0,
        manager.background_disk_error is None,
        forall|i: int|
            0 <= i < manager.blocks@.len() && (#[trigger] manager.blocks@[i]).id.global_layer
                == layer && manager.blocks@[i].id.representation == representation
                && manager.blocks@[i].id.end > end ==> manager.blocks@[i].id.start >= end
                && manager.blocks@[i].leases == 0,
    ensures
        truncation_failure(manager, layer, representation, end, None) is None,
{
    let selection = BlockSelection::Behind { layer, representation, end };
    nothing_crosses(manager.blocks@, selection, end);
}

proof fn nothing_crosses(blocks: Seq<CacheBlockRecord>, selection: BlockSelection, end: i64)
    requires
        forall|i: int|
            0 <= i < blocks.len() && selection.selects(#[trigger] blocks[i]) ==> blocks[i].id.start
                >= end && blocks[i].leases == 0,
    ensures
        first_crossing(blocks, selection, end) is None,
        lease_failure(blocks, selection, None) is None,
    decreases blocks.len(),
{
    if blocks.len() > 0 {
        let rest = blocks.drop_first();
        assert forall|i: int| 0 <= i < rest.len() && selection.selects(#[trigger] rest[i]) implies rest[i].id.start
            >= end && rest[i].leases == 0 by {
            assert(rest[i] == blocks[i + 1]);
        }
        nothing_crosses(rest, selection, end);
        assert(selection.selects(blocks[0]) ==> blocks[0].leases == 0);
    }
}

} // verus!
