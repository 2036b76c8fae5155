//! Identities, order and arrays of sealed cache blocks.

use vstd::prelude::*;

use crate::cache_residency::error::{CacheFailure, CacheResidencyError};

verus! {

/// Representation stored atomically in one cache block.
#[derive(Debug, Clone, Copy, PartialEq, Eq, Hash, PartialOrd, Ord, Structural)]
pub enum CacheRepresentation {
    /// Standard attention keys and values.
    KeyValue,
    /// DeepSeek compressed latent state and rotary keys.
    CompressedLatentRotary,
}

/// Optional rank identity included in a stable cache block identifier.
#[derive(Debug, Clone, Copy, PartialEq, Eq, Hash, PartialOrd, Ord, Structural)]
pub struct CacheRankIdentity {
    /// Pipeline rank, when pipeline partitioning is active.
    pub pipeline_rank: Option<usize>,
    /// Tensor-parallel rank, when cache heads are sharded.
    pub tensor_parallel_rank: Option<usize>,
    /// Expert-parallel rank for replicated attention state.
    pub expert_parallel_rank: Option<usize>,
}

/// Stable identity for one immutable sealed cache block.
#[derive(Debug, Clone, Copy, PartialEq, Eq, Hash, PartialOrd, Ord, Structural)]
pub struct CacheBlockId {
    /// Identity shared by every block in one live cache.
    pub session_id: u64,
    /// Architecture-global decoder layer index.
    pub global_layer: usize,
    /// Stored attention representation.
    pub representation: CacheRepresentation,
    /// Inclusive absolute token position.
    pub start: i64,
    /// Exclusive absolute token position.
    pub end: i64,
    /// Rank-local ownership identity.
    pub rank: Option<CacheRankIdentity>,
}

/// Logical location of a sealed cache block.
#[derive(Debug, Clone, Copy, PartialEq, Eq, Structural)]
pub enum CacheTier {
    /// Available to execution without a catalog load.
    Device,
    /// Evaluated CPU-resident state with no execution-device copy retained by the manager.
    Host,
    /// Stored in a live or persistent safetensors shard.
    Disk,
}

/// Lifecycle state visible through cache diagnostics.
#[derive(Debug, Clone, Copy, PartialEq, Eq, Structural)]
pub enum CacheBlockLifecycle {
    /// A layer-owned append target that has not been sealed.
    MutableDeviceTail,
    /// Immutable state kept on the execution device.
    SealedDevice,
    /// Immutable evaluated host state.
    SealedHost,
    /// Immutable disk-backed state.
    DiskBacked,
    /// A shared background disk transfer is queued or running.
    InFlight,
    /// State removed from live attention and persistence retention.
    Discarded,
    /// Read-only state cataloged from a prompt cache.
    ImportedReadOnly,
}

/// Position of an optional rank in its order: absent ranks come first.
pub open spec fn rank_position(rank: Option<usize>) -> int {
    match rank {
        None => 0,
        Some(rank) => rank + 1,
    }
}

/// The lexicographic order of rank identities.
pub open spec fn rank_before(left: CacheRankIdentity, right: CacheRankIdentity) -> bool {
    if left.pipeline_rank != right.pipeline_rank {
        rank_position(left.pipeline_rank) < rank_position(right.pipeline_rank)
    } else if left.tensor_parallel_rank != right.tensor_parallel_rank {
        rank_position(left.tensor_parallel_rank) < rank_position(right.tensor_parallel_rank)
    } else {
        rank_position(left.expert_parallel_rank) < rank_position(right.expert_parallel_rank)
    }
}

/// The lexicographic order of block identities, field by field.
pub open spec fn id_before(left: CacheBlockId, right: CacheBlockId) -> bool {
    if left.session_id != right.session_id {
        left.session_id < right.session_id
    } else if left.global_layer != right.global_layer {
        left.global_layer < right.global_layer
    } else if left.representation != right.representation {
        left.representation == CacheRepresentation::KeyValue
    } else if left.start != right.start {
        left.start < right.start
    } else if left.end != right.end {
        left.end < right.end
    } else {
        match (left.rank, right.rank) {
            (None, None) => false,
            (None, Some(_)) => true,
            (Some(_), None) => false,
            (Some(left), Some(right)) => rank_before(left, right),
        }
    }
}

/// Block identities are totally ordered: exactly one of "before", "equal" and
/// "after" holds of two of them.
pub proof fn id_order_is_total(left: CacheBlockId, right: CacheBlockId)
    ensures
        left == right ==> !id_before(left, right),
        left != right ==> (id_before(left, right) <==> !id_before(right, left)),
{
}

/// The order of block identities is transitive.
pub proof fn id_order_is_transitive(a: CacheBlockId, b: CacheBlockId, c: CacheBlockId)
    requires
        id_before(a, b),
        id_before(b, c),
    ensures
        id_before(a, c),
{
}

fn rank_less(left: Option<usize>, right: Option<usize>) -> (less: bool)
    ensures
        less == (rank_position(left) < rank_position(right)),
{
    match (left, right) {
        (None, None) => false,
        (None, Some(_)) => true,
        (Some(_), None) => false,
        (Some(left), Some(right)) => left < right,
    }
}

impl CacheBlockId {
    /// Whether this identity comes before `other` in catalog order.
    pub fn precedes(&self, other: &CacheBlockId) -> (before: bool)
        ensures
            before == id_before(*self, *other),
    {
        if self.session_id != other.session_id {
            self.session_id < other.session_id
        } else if self.global_layer != other.global_layer {
            self.global_layer < other.global_layer
        } else if self.representation != other.representation {
            self.representation == CacheRepresentation::KeyValue
        } else if self.start != other.start {
            self.start < other.start
        } else if self.end != other.end {
            self.end < other.end
        } else {
            match (self.rank, other.rank) {
                (None, None) => false,
                (None, Some(_)) => true,
                (Some(_), None) => false,
                (Some(left), Some(right)) => {
                    if left.pipeline_rank != right.pipeline_rank {
                        rank_less(left.pipeline_rank, right.pipeline_rank)
                    } else if left.tensor_parallel_rank != right.tensor_parallel_rank {
                        rank_less(left.tensor_parallel_rank, right.tensor_parallel_rank)
                    } else {
                        rank_less(left.expert_parallel_rank, right.expert_parallel_rank)
                    }
                },
            }
        }
    }
}

/// One evaluated attention array held by the runtime: its handle, shape, element
/// type and size. The elements themselves stay with the device library.
#[derive(Debug, Clone, PartialEq, Eq)]
pub struct CacheArray {
    /// Runtime handle of the evaluated array.
    pub handle: u64,
    /// Dimensions, outermost first.
    pub shape: Vec<i32>,
    /// Element type name.
    pub dtype: String,
    /// Size of the elements in bytes.
    pub nbytes: u64,
}

/// The two arrays of one sealed block.
#[derive(Debug, Clone, PartialEq, Eq)]
pub enum CacheBlockArrays {
    /// Attention keys and values.
    KeyValue {
        /// Keys.
        keys: CacheArray,
        /// Values.
        values: CacheArray,
    },
    /// Compressed latent state and rotary keys.
    CompressedLatentRotary {
        /// Compressed latent state.
        latent: CacheArray,
        /// Rotary keys.
        rotary_key: CacheArray,
    },
}

/// Why the arrays of a block cannot hold `token_count` tokens, if they cannot.
pub open spec fn block_arrays_failure(arrays: CacheBlockArrays, token_count: int) -> Option<
    CacheFailure,
> {
    let first = arrays.first_array();
    let second = arrays.second_array();
    let key_value = arrays.stored() == CacheRepresentation::KeyValue;
    if first.dtype@ != second.dtype@ {
        Some(CacheFailure::ArrayMismatch("both arrays in a cache block must share a dtype"@))
    } else if key_value && (first.shape@.len() < 2 || second.shape@.len() < 2) {
        Some(CacheFailure::ArrayMismatch("key/value blocks must have a sequence axis"@))
    } else if !key_value && (first.shape@.len() != 3 || second.shape@.len() != 3) {
        Some(CacheFailure::ArrayMismatch("compressed latent blocks must be rank-3"@))
    } else {
        let axis = if key_value {
            first.shape@.len() - 2
        } else {
            1
        };
        if first.shape@[axis] != token_count || second.shape@[axis] != token_count {
            Some(
                CacheFailure::ArrayMismatch(
                    "cache block range does not match its sequence dimensions"@,
                ),
            )
        } else if key_value && first.shape@ != second.shape@ {
            Some(CacheFailure::ArrayMismatch("key and value block shapes must match"@))
        } else if !key_value && (first.shape@[0] != second.shape@[0] || first.shape@[1]
            != second.shape@[1]) {
            Some(
                CacheFailure::ArrayMismatch(
                    "compressed latent and rotary blocks must share batch and sequence dimensions"@,
                ),
            )
        } else {
            None
        }
    }
}

/// Compares two shapes.
pub fn same_shape(left: &Vec<i32>, right: &Vec<i32>) -> (same: bool)
    ensures
        same == (left@ == right@),
{
    if left.len() != right.len() {
        return false;
    }
    let mut index: usize = 0;
    while index < left.len()
        invariant
            left.len() == right.len(),
            index <= left.len(),
            forall|i: int| 0 <= i < index ==> left@[i] == right@[i],
        decreases left.len() - index,
    {
        if left[index] != right[index] {
            return false;
        }
        index = index + 1;
    }
    assert(left@ =~= right@);
    true
}

impl CacheBlockArrays {
    /// The representation these arrays store.
    pub open spec fn stored(self) -> CacheRepresentation {
        match self {
            CacheBlockArrays::KeyValue { .. } => CacheRepresentation::KeyValue,
            CacheBlockArrays::CompressedLatentRotary { .. } =>
                CacheRepresentation::CompressedLatentRotary,
        }
    }

    /// The keys, or the latent state.
    pub open spec fn first_array(self) -> CacheArray {
        match self {
            CacheBlockArrays::KeyValue { keys, values } => keys,
            CacheBlockArrays::CompressedLatentRotary { latent, rotary_key } => latent,
        }
    }

    /// The values, or the rotary keys.
    pub open spec fn second_array(self) -> CacheArray {
        match self {
            CacheBlockArrays::KeyValue { keys, values } => values,
            CacheBlockArrays::CompressedLatentRotary { latent, rotary_key } => rotary_key,
        }
    }

    /// Logical bytes of both arrays.
    pub open spec fn size(self) -> int {
        self.first_array().nbytes + self.second_array().nbytes
    }

    /// Returns the representation these arrays store.
    pub fn representation(&self) -> (representation: CacheRepresentation)
        ensures
            representation == self.stored(),
    {
        match self {
            CacheBlockArrays::KeyValue { .. } => CacheRepresentation::KeyValue,
            CacheBlockArrays::CompressedLatentRotary { .. } =>
                CacheRepresentation::CompressedLatentRotary,
        }
    }

    /// Returns the keys, or the latent state.
    pub fn first(&self) -> (array: &CacheArray)
        ensures
            *array == self.first_array(),
    {
        match self {
            CacheBlockArrays::KeyValue { keys, values } => keys,
            CacheBlockArrays::CompressedLatentRotary { latent, rotary_key } => latent,
        }
    }

    /// Returns the values, or the rotary keys.
    pub fn second(&self) -> (array: &CacheArray)
        ensures
            *array == self.second_array(),
    {
        match self {
            CacheBlockArrays::KeyValue { keys, values } => values,
            CacheBlockArrays::CompressedLatentRotary { latent, rotary_key } => rotary_key,
        }
    }

    /// Returns the logical bytes of both arrays.
    pub fn bytes(&self) -> (bytes: u64)
        requires
            self.size() <= u64::MAX,
        ensures
            bytes == self.size(),
    {
        self.first().nbytes + self.second().nbytes
    }

    /// The second array has the sequence axis of the first one wherever checking the
    /// arrays against `token_count` tokens reads it.
    pub open spec fn comparable(self, token_count: int) -> bool {
        let first = self.first_array();
        let second = self.second_array();
        self.stored() == CacheRepresentation::KeyValue && first.dtype@ == second.dtype@
            && first.shape@.len() >= 2 && second.shape@.len() >= 2
            && first.shape@[first.shape@.len() - 2] == token_count ==> second.shape@.len()
            >= first.shape@.len() - 1
    }

    /// Checks that both arrays hold exactly `token_count` tokens of one block.
    pub fn validate(&self, token_count: i64) -> (outcome: Result<(), CacheResidencyError>)
        requires
            self.comparable(token_count as int),
        ensures
            crate::cache_residency::error::failure_of(outcome) == block_arrays_failure(
                *self,
                token_count as int,
            ),
    {
        let first = self.first();
        let second = self.second();
        if first.dtype != second.dtype {
            return Err(
                CacheResidencyError::ArrayMismatch(
                    "both arrays in a cache block must share a dtype".to_owned(),
                ),
            );
        }
        let key_value = self.representation() == CacheRepresentation::KeyValue;
        let axis: usize = if key_value {
            if first.shape.len() < 2 || second.shape.len() < 2 {
                return Err(
                    CacheResidencyError::ArrayMismatch(
                        "key/value blocks must have a sequence axis".to_owned(),
                    ),
                );
            }
            first.shape.len() - 2
        } else {
            if first.shape.len() != 3 || second.shape.len() != 3 {
                return Err(
                    CacheResidencyError::ArrayMismatch(
                        "compressed latent blocks must be rank-3".to_owned(),
                    ),
                );
            }
            1
        };
        if first.shape[axis] as i64 != token_count || second.shape[axis] as i64 != token_count {
            return Err(
                CacheResidencyError::ArrayMismatch(
                    "cache block range does not match its sequence dimensions".to_owned(),
                ),
            );
        }
        if key_value {
            if !same_shape(&first.shape, &second.shape) {
                return Err(
                    CacheResidencyError::ArrayMismatch(
                        "key and value block shapes must match".to_owned(),
                    ),
                );
            }
        } else if first.shape[0] != second.shape[0] || first.shape[1] != second.shape[1] {
            return Err(
                CacheResidencyError::ArrayMismatch(
                    "compressed latent and rotary blocks must share batch and sequence dimensions".to_owned(),
                ),
            );
        }
        Ok(())
    }
}

} // verus!
