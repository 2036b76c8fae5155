//! Structural validation of prompt-cache manifests and of the shards they name.

use vstd::prelude::*;
use vstd::string::StringExecFns;

use crate::cache_residency::block::{CacheRankIdentity, CacheRepresentation};
use crate::cache_residency::coverage::{walk_spans, SpanWalk, TokenSpan};
use crate::cache_residency::error::{CacheFailure, CacheResidencyError};
use crate::cache_residency::prompt::{
    PromptCacheBlock, PromptCacheManifest, PromptCacheTopology, PROMPT_CACHE_SCHEMA_VERSION,
};
use crate::cache_residency::shard::{
    array_names, check_header_length, is_sha256_hex, read_header, safe_shard_path,
    stored_dtype_name, ShardHeader, ShardTensor, TensorEntry,
};
use crate::text::{decimal_text, same_text, signed_text, usize_text};

verus! {

/// What the file system holds for one block's shard.
#[derive(Debug)]
pub enum ShardProbe {
    /// Following links leads out of the prompt-cache directory.
    Escapes,
    /// No regular file is there.
    Absent,
    /// The file could not be read.
    Unreadable {
        /// Filesystem action that failed.
        action: String,
        /// Path involved in the failed action.
        path: String,
        /// Underlying filesystem failure.
        source: String,
    },
    /// The header's length or its contents are refused.
    Malformed {
        /// Why.
        reason: String,
    },
    /// The header was read.
    Described {
        /// Length of the file.
        file_len: u64,
        /// Length of the header.
        header_len: u64,
        /// What the header describes.
        contents: ShardHeader,
    },
}

/// Describes a shard from the length of its file, its first eight bytes and the header
/// behind them.
pub fn probe_shard(path: &String, file_len: u64, length_bytes: &[u8], header: &[u8]) -> (probe:
    ShardProbe)
    requires
        length_bytes@.len() == 8,
    ensures
        ({
            let header_len = vstd::bytes::spec_u64_from_le_bytes(length_bytes@);
            match crate::cache_residency::shard::header_length_failure(path@, file_len, header_len) {
                Some(failure) => probe matches ShardProbe::Malformed { reason } && failure
                    == CacheFailure::MalformedShard(path@, reason@),
                None => match crate::cache_residency::shard::header_contents(header@) {
                    Some(contents) => probe matches ShardProbe::Described {
                        file_len: len,
                        header_len: before,
                        contents: read,
                    } && len == file_len && before == header_len && read@ == contents
                        && crate::cache_residency::shard::names_distinct(read.tensors@),
                    None => probe is Malformed,
                },
            }
        }),
{
    let header_len: u64 = match check_header_length(path, file_len, length_bytes) {
        Ok(length) => length,
        Err(CacheResidencyError::MalformedShard { path: _, reason }) => {
            return ShardProbe::Malformed { reason };
        },
        Err(_) => {
            return ShardProbe::Absent;
        },
    };
    match read_header(path, header) {
        Ok(contents) => ShardProbe::Described { file_len, header_len, contents },
        Err(CacheResidencyError::MalformedShard { path: _, reason }) => ShardProbe::Malformed {
            reason,
        },
        Err(_) => ShardProbe::Absent,
    }
}

/// Whether stored dimensions are exactly the expected ones.
pub open spec fn same_dimensions(stored: Seq<usize>, expected: Seq<i32>) -> bool {
    &&& stored.len() == expected.len()
    &&& forall|i: int|
        0 <= i < stored.len() ==> (#[trigger] stored[i]) as int == expected[i] as int
}

/// Whether every stored dimension is a runtime dimension.
pub open spec fn dimensions_fit(stored: Seq<usize>) -> bool {
    forall|i: int| 0 <= i < stored.len() ==> (#[trigger] stored[i]) <= i32::MAX
}

/// Payload bytes of a stored tensor.
pub open spec fn stored_bytes(tensor: TensorEntry) -> int {
    if tensor.end < tensor.start {
        0
    } else {
        tensor.end - tensor.start
    }
}

/// Why a shard does not hold an array as the manifest says, if it does not.
pub open spec fn stored_array_failure(
    path: Seq<char>,
    header: ShardHeader,
    name: Seq<char>,
    shape: Seq<i32>,
    dtype: Seq<char>,
) -> Option<CacheFailure> {
    let tensor = crate::cache_residency::shard::tensors_by_name(header.tensors@)[name];
    if !crate::cache_residency::shard::has_tensor(header.tensors@, name) {
        Some(CacheFailure::MalformedShard(path, "missing array "@ + name))
    } else if !dimensions_fit(tensor.shape) {
        Some(CacheFailure::MalformedShard(path, "array dimension exceeds runtime range"@))
    } else if !same_dimensions(tensor.shape, shape)
        || crate::cache_residency::shard::runtime_dtype(tensor.dtype) != dtype {
        Some(
            CacheFailure::MalformedShard(
                path,
                "array "@ + name + " shape or dtype does not match the manifest"@,
            ),
        )
    } else {
        None
    }
}

/// Payload bytes of both arrays of a block, capped at the largest integer.
pub open spec fn stored_block_bytes(header: ShardHeader, block: PromptCacheBlock) -> int {
    let tensors = crate::cache_residency::shard::tensors_by_name(header.tensors@);
    let bytes = stored_bytes(tensors[block.first_array@]) + stored_bytes(
        tensors[block.second_array@],
    );
    if bytes > u64::MAX {
        u64::MAX as int
    } else {
        bytes
    }
}

/// Why a shard does not hold a block as the manifest says, if it does not: it holds
/// exactly the two named arrays, with their shapes, types and sizes, and ends with them.
pub open spec fn shard_failure(
    path: Seq<char>,
    file_len: u64,
    header_len: u64,
    header: ShardHeader,
    block: PromptCacheBlock,
) -> Option<CacheFailure> {
    let first = stored_array_failure(
        path,
        header,
        block.first_array@,
        block.first_shape@,
        block.first_dtype@,
    );
    let second = stored_array_failure(
        path,
        header,
        block.second_array@,
        block.second_shape@,
        block.second_dtype@,
    );
    let bytes = stored_block_bytes(header, block);
    let boundary = crate::cache_residency::shard::payload_start(header_len) + header.payload_len;
    if header.tensors@.len() != 2 {
        Some(
            CacheFailure::MalformedShard(
                path,
                "expected two arrays, found "@ + crate::text::decimal(header.tensors@.len()),
            ),
        )
    } else if first is Some {
        first
    } else if second is Some {
        second
    } else if bytes != block.logical_bytes {
        Some(
            CacheFailure::MalformedShard(
                path,
                "logical byte count "@ + crate::text::decimal(bytes as nat)
                    + " does not match manifest value "@ + crate::text::decimal(
                    block.logical_bytes as nat,
                ),
            ),
        )
    } else if boundary > u64::MAX {
        Some(CacheFailure::MalformedShard(path, "safetensors file length overflow"@))
    } else if boundary != file_len {
        Some(
            CacheFailure::MalformedShard(
                path,
                "safetensors payload boundary "@ + crate::text::decimal(boundary as nat)
                    + " does not match file length "@ + crate::text::decimal(file_len as nat),
            ),
        )
    } else {
        None
    }
}

fn malformed_shard(path: &String, reason: String) -> (error: CacheResidencyError)
    ensures
        error@ == CacheFailure::MalformedShard(path@, reason@),
{
    CacheResidencyError::MalformedShard { path: path.clone(), reason }
}

/// Finds a tensor by name.
fn find_tensor<'a>(tensors: &'a Vec<ShardTensor>, name: &String) -> (found: Option<&'a ShardTensor>)
    requires
        crate::cache_residency::shard::names_distinct(tensors@),
    ensures
        match found {
            Some(tensor) => crate::cache_residency::shard::has_tensor(tensors@, name@)
                && crate::cache_residency::shard::tensors_by_name(tensors@)[name@] == tensor@,
            None => !crate::cache_residency::shard::has_tensor(tensors@, name@),
        },
{
    let mut index: usize = 0;
    while index < tensors.len()
        invariant
            index <= tensors@.len(),
            crate::cache_residency::shard::names_distinct(tensors@),
            forall|i: int| 0 <= i < index ==> (#[trigger] tensors@[i]).name@ != name@,
        decreases tensors@.len() - index,
    {
        if tensors[index].name == *name {
            proof {
                let chosen = choose|i: int|
                    0 <= i < tensors@.len() && (#[trigger] tensors@[i]).name@ == name@;
                assert(tensors@[index as int].name@ == name@);
                if chosen < index {
                    assert(tensors@[chosen].name@ != name@);
                } else if chosen > index {
                    assert(tensors@[index as int].name@ != tensors@[chosen].name@);
                }
            }
            return Some(&tensors[index]);
        }
        index = index + 1;
    }
    None
}

/// Checks one array of a shard and returns its payload bytes.
fn check_stored_array(
    path: &String,
    header: &ShardHeader,
    name: &String,
    shape: &Vec<i32>,
    dtype: &String,
) -> (outcome: Result<u64, CacheResidencyError>)
    requires
        crate::cache_residency::shard::names_distinct(header.tensors@),
    ensures
        crate::cache_residency::error::failure_of(outcome) == stored_array_failure(
            path@,
            *header,
            name@,
            shape@,
            dtype@,
        ),
        outcome matches Ok(bytes) ==> bytes == stored_bytes(
            crate::cache_residency::shard::tensors_by_name(header.tensors@)[name@],
        ),
{
    let tensor = match find_tensor(&header.tensors, name) {
        Some(tensor) => tensor,
        None => {
            let mut reason = "missing array ".to_owned();
            reason.append(name.as_str());
            return Err(malformed_shard(path, reason));
        },
    };
    let mut index: usize = 0;
    while index < tensor.shape.len()
        invariant
            index <= tensor.shape@.len(),
            forall|i: int| 0 <= i < index ==> (#[trigger] tensor.shape@[i]) <= i32::MAX,
            crate::cache_residency::shard::has_tensor(header.tensors@, name@),
            crate::cache_residency::shard::tensors_by_name(header.tensors@)[name@] == tensor@,
        decreases tensor.shape@.len() - index,
    {
        if tensor.shape[index] > i32::MAX as usize {
            return Err(
                malformed_shard(path, "array dimension exceeds runtime range".to_owned()),
            );
        }
        index = index + 1;
    }
    let mut same: bool = tensor.shape.len() == shape.len();
    let mut index: usize = 0;
    while same && index < tensor.shape.len()
        invariant
            index <= tensor.shape@.len(),
            dimensions_fit(tensor.shape@),
            same ==> tensor.shape@.len() == shape@.len(),
            same ==> forall|i: int|
                0 <= i < index ==> (#[trigger] tensor.shape@[i]) as int == shape@[i] as int,
            !same ==> !same_dimensions(tensor.shape@, shape@),
        decreases tensor.shape@.len() - index,
    {
        assert(tensor.shape@[index as int] <= i32::MAX);
        if tensor.shape[index] as i64 != shape[index] as i64 {
            same = false;
        }
        index = index + 1;
    }
    let stored_dtype = stored_dtype_name(tensor.dtype.as_str());
    if !same || stored_dtype != *dtype {
        let mut reason = "array ".to_owned();
        reason.append(name.as_str());
        reason.append(" shape or dtype does not match the manifest");
        return Err(malformed_shard(path, reason));
    }
    let bytes: usize = tensor.end.saturating_sub(tensor.start);
    Ok(bytes as u64)
}

/// Checks that a shard holds a block exactly as the manifest says.
pub fn validate_shard(
    path: &String,
    file_len: u64,
    header_len: u64,
    header: &ShardHeader,
    block: &PromptCacheBlock,
) -> (outcome: Result<(), CacheResidencyError>)
    requires
        crate::cache_residency::shard::names_distinct(header.tensors@),
    ensures
        crate::cache_residency::error::failure_of(outcome) == shard_failure(
            path@,
            file_len,
            header_len,
            *header,
            *block,
        ),
{
    if header.tensors.len() != 2 {
        let mut reason = "expected two arrays, found ".to_owned();
        reason.append(usize_text(header.tensors.len()).as_str());
        return Err(malformed_shard(path, reason));
    }
    let first: u64 = match check_stored_array(
        path,
        header,
        &block.first_array,
        &block.first_shape,
        &block.first_dtype,
    ) {
        Ok(bytes) => bytes,
        Err(error) => {
            return Err(error);
        },
    };
    let second: u64 = match check_stored_array(
        path,
        header,
        &block.second_array,
        &block.second_shape,
        &block.second_dtype,
    ) {
        Ok(bytes) => bytes,
        Err(error) => {
            return Err(error);
        },
    };
    let bytes: u64 = first.saturating_add(second);
    if bytes != block.logical_bytes {
        let mut reason = "logical byte count ".to_owned();
        reason.append(decimal_text(bytes).as_str());
        reason.append(" does not match manifest value ");
        reason.append(decimal_text(block.logical_bytes).as_str());
        return Err(malformed_shard(path, reason));
    }
    let boundary: Option<u64> = match 8u64.checked_add(header_len) {
        Some(start) => start.checked_add(header.payload_len as u64),
        None => None,
    };
    let boundary: u64 = match boundary {
        Some(boundary) => boundary,
        None => {
            return Err(malformed_shard(path, "safetensors file length overflow".to_owned()));
        },
    };
    if boundary != file_len {
        let mut reason = "safetensors payload boundary ".to_owned();
        reason.append(decimal_text(boundary).as_str());
        reason.append(" does not match file length ");
        reason.append(decimal_text(file_len).as_str());
        return Err(malformed_shard(path, reason));
    }
    Ok(())
}

/// Why a shard probe refuses a block, if it does. The shard is looked up below the
/// prompt-cache directory.
pub open spec fn probe_failure(
    directory: Seq<char>,
    block: PromptCacheBlock,
    probe: ShardProbe,
) -> Option<CacheFailure> {
    let path = crate::cache_residency::shard::joined_path(directory, block.shard@);
    if !crate::cache_residency::shard::is_plain_relative(block.shard@) {
        Some(CacheFailure::UnsafeShardPath(block.shard@))
    } else {
        match probe {
            ShardProbe::Escapes => Some(CacheFailure::UnsafeShardPath(block.shard@)),
            ShardProbe::Absent => Some(CacheFailure::MissingShard(path)),
            ShardProbe::Unreadable { action, path: at, source } => Some(
                CacheFailure::Io(action@, at@, source@),
            ),
            ShardProbe::Malformed { reason } => Some(CacheFailure::MalformedShard(path, reason@)),
            ShardProbe::Described { file_len, header_len, contents } => shard_failure(
                path,
                file_len,
                header_len,
                contents,
                block,
            ),
        }
    }
}

/// Whether no described header has two tensors of one name.
pub open spec fn probe_distinct(probe: ShardProbe) -> bool {
    probe matches ShardProbe::Described { contents, .. } ==>
        crate::cache_residency::shard::names_distinct(contents.tensors@)
}

fn check_probe(directory: &str, block: &PromptCacheBlock, probe: &ShardProbe) -> (outcome: Result<
    (),
    CacheResidencyError,
>)
    requires
        probe_distinct(*probe),
    ensures
        crate::cache_residency::error::failure_of(outcome) == probe_failure(
            directory@,
            *block,
            *probe,
        ),
{
    let escapes = match probe {
        ShardProbe::Escapes => true,
        _ => false,
    };
    let path = match safe_shard_path(directory, block.shard.as_str(), escapes) {
        Ok(path) => path,
        Err(error) => {
            return Err(error);
        },
    };
    match probe {
        ShardProbe::Escapes => Ok(()),
        ShardProbe::Absent => Err(CacheResidencyError::MissingShard(path)),
        ShardProbe::Unreadable { action, path: at, source } => Err(
            CacheResidencyError::Io {
                action: action.clone(),
                path: at.clone(),
                source: source.clone(),
            },
        ),
        ShardProbe::Malformed { reason } => Err(malformed_shard(&path, reason.clone())),
        ShardProbe::Described { file_len, header_len, contents } => validate_shard(
            &path,
            *file_len,
            *header_len,
            contents,
            block,
        ),
    }
}

/// The rank of a topology axis.
pub open spec fn axis_rank(axis: Option<(usize, usize)>) -> Option<usize> {
    match axis {
        Some((_, rank)) => Some(rank),
        None => None,
    }
}

/// The rank identity of blocks under a topology; there is none without an axis.
pub open spec fn topology_rank(topology: PromptCacheTopology) -> Option<CacheRankIdentity> {
    if topology.pipeline is None && topology.tensor_parallel is None
        && topology.expert_parallel is None {
        None
    } else {
        Some(
            CacheRankIdentity {
                pipeline_rank: axis_rank(topology.pipeline),
                tensor_parallel_rank: axis_rank(topology.tensor_parallel),
                expert_parallel_rank: axis_rank(topology.expert_parallel),
            },
        )
    }
}

fn rank_on(axis: Option<(usize, usize)>) -> (rank: Option<usize>)
    ensures
        rank == axis_rank(axis),
{
    match axis {
        Some((_, rank)) => Some(rank),
        None => None,
    }
}

/// Returns the rank identity of blocks under a topology.
pub fn expected_rank(topology: &PromptCacheTopology) -> (rank: Option<CacheRankIdentity>)
    ensures
        rank == topology_rank(*topology),
{
    let rank = CacheRankIdentity {
        pipeline_rank: rank_on(topology.pipeline),
        tensor_parallel_rank: rank_on(topology.tensor_parallel),
        expert_parallel_rank: rank_on(topology.expert_parallel),
    };
    if rank.pipeline_rank.is_some() || rank.tensor_parallel_rank.is_some()
        || rank.expert_parallel_rank.is_some() {
        Some(rank)
    } else {
        None
    }
}

/// Whether a topology axis names no rank of its world.
pub open spec fn axis_invalid(axis: Option<(usize, usize)>) -> bool {
    axis matches Some((world_size, rank)) && (world_size == 0 || rank >= world_size)
}

fn is_axis_invalid(axis: Option<(usize, usize)>) -> (invalid: bool)
    ensures
        invalid == axis_invalid(axis),
{
    match axis {
        Some((world_size, rank)) => world_size == 0 || rank >= world_size,
        None => false,
    }
}

/// A malformed manifest.
pub open spec fn malformed(text: Seq<char>) -> Option<CacheFailure> {
    Some(CacheFailure::MalformedManifest(text))
}

/// Why the dimensions or the topology of a manifest are refused, if they are.
pub open spec fn dimensions_failure(manifest: PromptCacheManifest) -> Option<CacheFailure> {
    if manifest.schema_version != PROMPT_CACHE_SCHEMA_VERSION {
        Some(CacheFailure::UnsupportedSchema(manifest.schema_version))
    } else if manifest.block_size_tokens <= 0 || manifest.layer_count == 0
        || manifest.global_layer_start >= manifest.global_layer_end || manifest.global_layer_end
        > manifest.layer_count || manifest.batch_size == 0 || manifest.batch_size > i32::MAX
        || manifest.total_prefix_tokens == 0 {
        malformed("invalid global cache dimensions"@)
    } else if axis_invalid(manifest.topology.pipeline) {
        malformed("invalid pipeline topology"@)
    } else if axis_invalid(manifest.topology.tensor_parallel) {
        malformed("invalid tensor parallel topology"@)
    } else if axis_invalid(manifest.topology.expert_parallel) {
        malformed("invalid expert parallel topology"@)
    } else {
        None
    }
}

fn check_dimensions(manifest: &PromptCacheManifest) -> (outcome: Result<(), CacheResidencyError>)
    ensures
        crate::cache_residency::error::failure_of(outcome) == dimensions_failure(*manifest),
{
    if manifest.schema_version != PROMPT_CACHE_SCHEMA_VERSION {
        return Err(CacheResidencyError::UnsupportedSchema(manifest.schema_version));
    }
    if manifest.block_size_tokens <= 0 || manifest.layer_count == 0 || manifest.global_layer_start
        >= manifest.global_layer_end || manifest.global_layer_end > manifest.layer_count
        || manifest.batch_size == 0 || manifest.batch_size > i32::MAX as usize
        || manifest.total_prefix_tokens == 0 {
        return Err(
            CacheResidencyError::MalformedManifest("invalid global cache dimensions".to_owned()),
        );
    }
    if is_axis_invalid(manifest.topology.pipeline) {
        return Err(CacheResidencyError::MalformedManifest("invalid pipeline topology".to_owned()));
    }
    if is_axis_invalid(manifest.topology.tensor_parallel) {
        return Err(
            CacheResidencyError::MalformedManifest("invalid tensor parallel topology".to_owned()),
        );
    }
    if is_axis_invalid(manifest.topology.expert_parallel) {
        return Err(
            CacheResidencyError::MalformedManifest("invalid expert parallel topology".to_owned()),
        );
    }
    Ok(())
}

/// Axis along which the arrays of a block hold its tokens.
pub open spec fn sequence_axis(representation: CacheRepresentation) -> int {
    match representation {
        CacheRepresentation::KeyValue => 2,
        CacheRepresentation::CompressedLatentRotary => 1,
    }
}

/// Why a manifest's entry for a block is refused, if it is, whatever its shard holds.
pub open spec fn block_entry_failure(
    manifest: PromptCacheManifest,
    block: PromptCacheBlock,
) -> Option<CacheFailure> {
    let names = crate::cache_residency::shard::array_names_of(block.representation);
    let first = block.first_shape@;
    let second = block.second_shape@;
    let batch = manifest.batch_size as i32;
    let axis = sequence_axis(block.representation);
    let tokens = (block.end - block.start) as i32;
    if block.global_layer < manifest.global_layer_start || block.global_layer
        >= manifest.global_layer_end || block.start < 0 || block.end <= block.start || block.end
        > manifest.total_prefix_tokens as i64 || block.logical_bytes == 0 || first.len() == 0
        || second.len() == 0 || !crate::cache_residency::shard::is_digest_text(
        block.payload_sha256@,
    ) {
        malformed(
            "invalid block at layer "@ + crate::text::decimal(block.global_layer as nat)
                + " range "@ + crate::text::signed_decimal(block.start as int) + ".."@
                + crate::text::signed_decimal(block.end as int),
        )
    } else if block.rank != topology_rank(manifest.topology) {
        malformed("block rank identity does not match the recorded topology"@)
    } else if block.first_dtype@ != block.second_dtype@ || first[0] != batch || second[0] != batch {
        malformed("block batch dimension or dtype is inconsistent"@)
    } else if block.first_array@ != names.0 || block.second_array@ != names.1 {
        malformed("block array names do not match its representation"@)
    } else if block.representation == CacheRepresentation::KeyValue && (first.len() != 4 || first
        != second) {
        malformed("key/value blocks must use identical rank-4 shapes"@)
    } else if block.representation == CacheRepresentation::CompressedLatentRotary && (first.len()
        != 3 || second.len() != 3) {
        malformed("compressed latent/rotary blocks must use rank-3 shapes"@)
    } else if first[axis] != tokens || second[axis] != tokens {
        malformed("block token range does not match array shapes"@)
    } else {
        None
    }
}

fn check_block_entry(manifest: &PromptCacheManifest, block: &PromptCacheBlock) -> (outcome: Result<
    (),
    CacheResidencyError,
>)
    ensures
        crate::cache_residency::error::failure_of(outcome) == block_entry_failure(
            *manifest,
            *block,
        ),
{
    if block.global_layer < manifest.global_layer_start || block.global_layer
        >= manifest.global_layer_end || block.start < 0 || block.end <= block.start || block.end
        > manifest.total_prefix_tokens as i64 || block.logical_bytes == 0
        || block.first_shape.len() == 0 || block.second_shape.len() == 0 || !is_sha256_hex(
        block.payload_sha256.as_str(),
    ) {
        let mut text = "invalid block at layer ".to_owned();
        text.append(usize_text(block.global_layer).as_str());
        text.append(" range ");
        text.append(signed_text(block.start).as_str());
        text.append("..");
        text.append(signed_text(block.end).as_str());
        return Err(CacheResidencyError::MalformedManifest(text));
    }
    if block.rank != expected_rank(&manifest.topology) {
        return Err(
            CacheResidencyError::MalformedManifest(
                "block rank identity does not match the recorded topology".to_owned(),
            ),
        );
    }
    let batch: i32 = manifest.batch_size as i32;
    if block.first_dtype != block.second_dtype || block.first_shape[0] != batch
        || block.second_shape[0] != batch {
        return Err(
            CacheResidencyError::MalformedManifest(
                "block batch dimension or dtype is inconsistent".to_owned(),
            ),
        );
    }
    let names = array_names(block.representation);
    if !same_text(block.first_array.as_str(), names.0) || !same_text(
        block.second_array.as_str(),
        names.1,
    ) {
        return Err(
            CacheResidencyError::MalformedManifest(
                "block array names do not match its representation".to_owned(),
            ),
        );
    }
    let axis: usize = match block.representation {
        CacheRepresentation::KeyValue => {
            if block.first_shape.len() != 4 || !crate::cache_residency::block::same_shape(
                &block.first_shape,
                &block.second_shape,
            ) {
                return Err(
                    CacheResidencyError::MalformedManifest(
                        "key/value blocks must use identical rank-4 shapes".to_owned(),
                    ),
                );
            }
            2
        },
        CacheRepresentation::CompressedLatentRotary => {
            if block.first_shape.len() != 3 || block.second_shape.len() != 3 {
                return Err(
                    CacheResidencyError::MalformedManifest(
                        "compressed latent/rotary blocks must use rank-3 shapes".to_owned(),
                    ),
                );
            }
            1
        },
    };
    let tokens: i32 = (block.end - block.start) as i32;
    if block.first_shape[axis] != tokens || block.second_shape[axis] != tokens {
        return Err(
            CacheResidencyError::MalformedManifest(
                "block token range does not match array shapes".to_owned(),
            ),
        );
    }
    Ok(())
}

/// Spans of the blocks of one layer and representation, in manifest order.
pub open spec fn spans_of(
    blocks: Seq<PromptCacheBlock>,
    layer: usize,
    representation: CacheRepresentation,
) -> Seq<TokenSpan>
    decreases blocks.len(),
{
    if blocks.len() == 0 {
        Seq::empty()
    } else {
        let before = spans_of(blocks.drop_last(), layer, representation);
        let block = blocks.last();
        if block.global_layer == layer && block.representation == representation {
            before.push(TokenSpan { start: block.start, end: block.end })
        } else {
            before
        }
    }
}

/// Spans of the blocks of one layer: key/value blocks before compressed ones.
pub open spec fn layer_spans(blocks: Seq<PromptCacheBlock>, layer: usize) -> Seq<TokenSpan> {
    spans_of(blocks, layer, CacheRepresentation::KeyValue) + spans_of(
        blocks,
        layer,
        CacheRepresentation::CompressedLatentRotary,
    )
}

/// Why the blocks of a layer do not cover the prefix, if they do not.
pub open spec fn layer_failure(
    blocks: Seq<PromptCacheBlock>,
    layer: usize,
    total: usize,
) -> Option<CacheFailure> {
    let spans = layer_spans(blocks, layer);
    let name = crate::text::decimal(layer as nat);
    if spans.len() == 0 {
        malformed("missing blocks for global layer "@ + name)
    } else {
        match crate::cache_residency::coverage::walk(spans, 0) {
            SpanWalk::Breaks { expected, found } => malformed(
                "gap or overlap at global layer "@ + name + ": expected "@
                    + crate::text::signed_decimal(expected as int) + ", found "@
                    + crate::text::signed_decimal(found as int),
            ),
            SpanWalk::Reaches(end) => if end != total as i64 {
                malformed(
                    "global layer "@ + name + " ends at "@ + crate::text::signed_decimal(
                        end as int,
                    ) + ", expected "@ + crate::text::decimal(total as nat),
                )
            } else {
                None
            },
        }
    }
}

/// Why the first layer that fails does, of those from `from` up to `to`.
pub open spec fn layers_failure(
    blocks: Seq<PromptCacheBlock>,
    from: usize,
    to: usize,
    total: usize,
) -> Option<CacheFailure>
    decreases to - from,
{
    if from >= to {
        None
    } else {
        let failure = layer_failure(blocks, from, total);
        if failure is Some {
            failure
        } else {
            layers_failure(blocks, (from + 1) as usize, to, total)
        }
    }
}

fn collect_spans(
    blocks: &Vec<PromptCacheBlock>,
    layer: usize,
    representation: CacheRepresentation,
    spans: &mut Vec<TokenSpan>,
)
    ensures
        final(spans)@ == old(spans)@ + spans_of(blocks@, layer, representation),
{
    let ghost before = spans@;
    let mut index: usize = 0;
    while index < blocks.len()
        invariant
            index <= blocks@.len(),
            spans@ == before + spans_of(blocks@.take(index as int), layer, representation),
        decreases blocks@.len() - index,
    {
        assert(blocks@.take(index + 1).drop_last() =~= blocks@.take(index as int));
        let block = &blocks[index];
        if block.global_layer == layer && block.representation == representation {
            spans.push(TokenSpan { start: block.start, end: block.end });
        }
        index = index + 1;
        assert(spans@ =~= before + spans_of(blocks@.take(index as int), layer, representation));
    }
    assert(blocks@.take(index as int) =~= blocks@);
}

fn check_layer(blocks: &Vec<PromptCacheBlock>, layer: usize, total: usize) -> (outcome: Result<
    (),
    CacheResidencyError,
>)
    ensures
        crate::cache_residency::error::failure_of(outcome) == layer_failure(blocks@, layer, total),
{
    let mut spans: Vec<TokenSpan> = Vec::new();
    collect_spans(blocks, layer, CacheRepresentation::KeyValue, &mut spans);
    collect_spans(blocks, layer, CacheRepresentation::CompressedLatentRotary, &mut spans);
    assert(spans@ =~= layer_spans(blocks@, layer));
    if spans.len() == 0 {
        let mut text = "missing blocks for global layer ".to_owned();
        text.append(usize_text(layer).as_str());
        return Err(CacheResidencyError::MalformedManifest(text));
    }
    match walk_spans(spans, 0) {
        SpanWalk::Breaks { expected, found } => {
            let mut text = "gap or overlap at global layer ".to_owned();
            text.append(usize_text(layer).as_str());
            text.append(": expected ");
            text.append(signed_text(expected).as_str());
            text.append(", found ");
            text.append(signed_text(found).as_str());
            Err(CacheResidencyError::MalformedManifest(text))
        },
        SpanWalk::Reaches(end) => {
            if end != total as i64 {
                let mut text = "global layer ".to_owned();
                text.append(usize_text(layer).as_str());
                text.append(" ends at ");
                text.append(signed_text(end).as_str());
                text.append(", expected ");
                text.append(usize_text(total).as_str());
                Err(CacheResidencyError::MalformedManifest(text))
            } else {
                Ok(())
            }
        },
    }
}

/// Why the first block that fails does: its entry, or else its shard.
pub open spec fn blocks_failure(
    directory: Seq<char>,
    manifest: PromptCacheManifest,
    probes: Seq<ShardProbe>,
    from: int,
) -> Option<CacheFailure>
    decreases manifest.blocks@.len() - from,
{
    if from >= manifest.blocks@.len() {
        None
    } else {
        let block = manifest.blocks@[from];
        let entry = block_entry_failure(manifest, block);
        let shard = probe_failure(directory, block, probes[from]);
        if entry is Some {
            entry
        } else if shard is Some {
            shard
        } else {
            blocks_failure(directory, manifest, probes, from + 1)
        }
    }
}

/// Why a manifest is refused, if it is: its dimensions, then its blocks in order, then
/// the coverage of its layers in order.
pub open spec fn manifest_failure(
    directory: Seq<char>,
    manifest: PromptCacheManifest,
    probes: Seq<ShardProbe>,
) -> Option<CacheFailure> {
    let dimensions = dimensions_failure(manifest);
    let blocks = blocks_failure(directory, manifest, probes, 0);
    if dimensions is Some {
        dimensions
    } else if blocks is Some {
        blocks
    } else {
        layers_failure(
            manifest.blocks@,
            manifest.global_layer_start,
            manifest.global_layer_end,
            manifest.total_prefix_tokens,
        )
    }
}

/// Checks a manifest against what the file system holds for each of its blocks.
pub fn validate_manifest(
    directory: &str,
    manifest: &PromptCacheManifest,
    probes: &Vec<ShardProbe>,
) -> (outcome: Result<(), CacheResidencyError>)
    requires
        probes@.len() == manifest.blocks@.len(),
        forall|i: int| 0 <= i < probes@.len() ==> probe_distinct(#[trigger] probes@[i]),
    ensures
        crate::cache_residency::error::failure_of(outcome) == manifest_failure(
            directory@,
            *manifest,
            probes@,
        ),
{
    match check_dimensions(manifest) {
        Ok(_) => {},
        Err(error) => {
            return Err(error);
        },
    }
    let mut index: usize = 0;
    while index < manifest.blocks.len()
        invariant
            index <= manifest.blocks@.len(),
            probes@.len() == manifest.blocks@.len(),
            forall|i: int| 0 <= i < probes@.len() ==> probe_distinct(#[trigger] probes@[i]),
            dimensions_failure(*manifest) is None,
            blocks_failure(directory@, *manifest, probes@, 0) == blocks_failure(
                directory@,
                *manifest,
                probes@,
                index as int,
            ),
        decreases manifest.blocks@.len() - index,
    {
        match check_block_entry(manifest, &manifest.blocks[index]) {
            Ok(_) => {},
            Err(error) => {
                return Err(error);
            },
        }
        match check_probe(directory, &manifest.blocks[index], &probes[index]) {
            Ok(_) => {},
            Err(error) => {
                return Err(error);
            },
        }
        index = index + 1;
    }
    let end: usize = manifest.global_layer_end;
    let mut layer: usize = manifest.global_layer_start;
    while layer < end
        invariant
            end == manifest.global_layer_end,
            dimensions_failure(*manifest) is None,
            blocks_failure(directory@, *manifest, probes@, 0) is None,
            layers_failure(
                manifest.blocks@,
                manifest.global_layer_start,
                end,
                manifest.total_prefix_tokens,
            ) == layers_failure(manifest.blocks@, layer, end, manifest.total_prefix_tokens),
        decreases end - layer,
    {
        match check_layer(&manifest.blocks, layer, manifest.total_prefix_tokens) {
            Ok(_) => {},
            Err(error) => {
                return Err(error);
            },
        }
        layer = layer + 1;
    }
    Ok(())
}

/// How many spans of a layer and representation a manifest lists before a block.
spec fn spans_before(
    blocks: Seq<PromptCacheBlock>,
    layer: usize,
    representation: CacheRepresentation,
    index: int,
) -> int {
    spans_of(blocks.take(index), layer, representation).len() as int
}

proof fn spans_grow(
    blocks: Seq<PromptCacheBlock>,
    layer: usize,
    representation: CacheRepresentation,
    index: int,
)
    requires
        0 <= index < blocks.len(),
        blocks[index].global_layer == layer,
        blocks[index].representation == representation,
    ensures
        ({
            let spans = spans_of(blocks, layer, representation);
            let place = spans_before(blocks, layer, representation, index);
            &&& 0 <= place < spans.len()
            &&& spans[place] == (TokenSpan {
                start: blocks[index].start,
                end: blocks[index].end,
            })
        }),
    decreases blocks.len(),
{
    let rest = blocks.drop_last();
    if index == blocks.len() - 1 {
        assert(blocks.take(index) =~= rest);
    } else {
        assert(rest[index] == blocks[index]);
        spans_grow(rest, layer, representation, index);
        assert(rest.take(index) =~= blocks.take(index));
    }
}

proof fn places_differ(
    blocks: Seq<PromptCacheBlock>,
    layer: usize,
    representation: CacheRepresentation,
    i: int,
    j: int,
)
    requires
        0 <= i < j < blocks.len(),
        blocks[i].global_layer == layer,
        blocks[i].representation == representation,
    ensures
        spans_before(blocks, layer, representation, i) < spans_before(
            blocks,
            layer,
            representation,
            j,
        ),
{
    let part = blocks.take(j);
    assert(part[i] == blocks[i]);
    spans_grow(part, layer, representation, i);
    assert(part.take(i) =~= blocks.take(i));
}

proof fn entry_of_accepted(
    directory: Seq<char>,
    manifest: PromptCacheManifest,
    probes: Seq<ShardProbe>,
    from: int,
    index: int,
)
    requires
        0 <= from <= index < manifest.blocks@.len(),
        blocks_failure(directory, manifest, probes, from) is None,
    ensures
        block_entry_failure(manifest, manifest.blocks@[index]) is None,
        probe_failure(directory, manifest.blocks@[index], probes[index]) is None,
    decreases index - from,
{
    if from < index {
        entry_of_accepted(directory, manifest, probes, from + 1, index);
    }
}

proof fn layer_of_accepted(
    blocks: Seq<PromptCacheBlock>,
    from: usize,
    to: usize,
    total: usize,
    layer: usize,
)
    requires
        from <= layer < to,
        layers_failure(blocks, from, to, total) is None,
    ensures
        layer_failure(blocks, layer, total) is None,
    decreases to - from,
{
    if from < layer {
        layer_of_accepted(blocks, (from + 1) as usize, to, total, layer);
    }
}

proof fn spans_come_from_blocks(
    blocks: Seq<PromptCacheBlock>,
    layer: usize,
    representation: CacheRepresentation,
)
    requires
        forall|i: int| 0 <= i < blocks.len() ==> (#[trigger] blocks[i]).start < blocks[i].end,
    ensures
        forall|i: int|
            0 <= i < spans_of(blocks, layer, representation).len() ==> (#[trigger] spans_of(
                blocks,
                layer,
                representation,
            )[i]).start < spans_of(blocks, layer, representation)[i].end,
    decreases blocks.len(),
{
    if blocks.len() > 0 {
        let rest = blocks.drop_last();
        assert forall|i: int| 0 <= i < rest.len() implies (#[trigger] rest[i]).start
            < rest[i].end by {
            assert(rest[i] == blocks[i]);
        }
        spans_come_from_blocks(rest, layer, representation);
        let last = blocks[blocks.len() - 1];
        assert(last.start < last.end);
        let all = spans_of(blocks, layer, representation);
        let before = spans_of(rest, layer, representation);
        assert forall|i: int| 0 <= i < all.len() implies (#[trigger] all[i]).start
            < all[i].end by {
            if i < before.len() {
                assert(all[i] == before[i]);
            }
        }
    }
}

/// An accepted manifest covers its prefix: in every layer that it owns, each token of
/// the prefix is in exactly one block, and no block reaches beyond the prefix.
pub proof fn accepted_manifest_covers_every_layer(
    directory: Seq<char>,
    manifest: PromptCacheManifest,
    probes: Seq<ShardProbe>,
    layer: usize,
)
    requires
        manifest_failure(directory, manifest, probes) is None,
        manifest.global_layer_start <= layer < manifest.global_layer_end,
    ensures
        crate::cache_residency::coverage::partitions(
            layer_spans(manifest.blocks@, layer),
            0,
            manifest.total_prefix_tokens as int,
        ),
{
    let blocks = manifest.blocks@;
    let total = manifest.total_prefix_tokens;
    let bound = total as i64;
    let spans = layer_spans(blocks, layer);
    assert forall|i: int| 0 <= i < blocks.len() implies (#[trigger] blocks[i]).start
        < blocks[i].end by {
        entry_of_accepted(directory, manifest, probes, 0, i);
    }
    spans_come_from_blocks(blocks, layer, CacheRepresentation::KeyValue);
    spans_come_from_blocks(blocks, layer, CacheRepresentation::CompressedLatentRotary);
    let keyed = spans_of(blocks, layer, CacheRepresentation::KeyValue);
    let compressed = spans_of(blocks, layer, CacheRepresentation::CompressedLatentRotary);
    assert forall|i: int| 0 <= i < spans.len() implies (#[trigger] spans[i]).start
        < spans[i].end by {
        if i < keyed.len() {
            assert(spans[i] == keyed[i]);
        } else {
            assert(spans[i] == compressed[i - keyed.len()]);
        }
    }
    layer_of_accepted(
        blocks,
        manifest.global_layer_start,
        manifest.global_layer_end,
        total,
        layer,
    );
    crate::cache_residency::coverage::walk_reaches_exactly_partitions(spans, 0, bound);
    assert(bound >= 0);
    assert(total as i64 >= 0 ==> total as i64 == total) by (bit_vector);
}

/// An accepted manifest lists no block twice: no two of its entries share a layer, a
/// representation and a first token.
pub proof fn accepted_manifest_lists_blocks_once(
    directory: Seq<char>,
    manifest: PromptCacheManifest,
    probes: Seq<ShardProbe>,
    i: int,
    j: int,
)
    requires
        manifest_failure(directory, manifest, probes) is None,
        0 <= i < j < manifest.blocks@.len(),
        manifest.blocks@[i].global_layer == manifest.blocks@[j].global_layer,
        manifest.blocks@[i].representation == manifest.blocks@[j].representation,
    ensures
        manifest.blocks@[i].start != manifest.blocks@[j].start,
{
    let blocks = manifest.blocks@;
    let layer = blocks[i].global_layer;
    let representation = blocks[i].representation;
    entry_of_accepted(directory, manifest, probes, 0, i);
    entry_of_accepted(directory, manifest, probes, 0, j);
    accepted_manifest_covers_every_layer(directory, manifest, probes, layer);
    spans_grow(blocks, layer, representation, i);
    spans_grow(blocks, layer, representation, j);
    places_differ(blocks, layer, representation, i, j);
    let keyed = spans_of(blocks, layer, CacheRepresentation::KeyValue);
    let offset = if representation == CacheRepresentation::KeyValue {
        0
    } else {
        keyed.len() as int
    };
    let spans = layer_spans(blocks, layer);
    let left = offset + spans_before(blocks, layer, representation, i);
    let right = offset + spans_before(blocks, layer, representation, j);
    if blocks[i].start == blocks[j].start {
        let token = blocks[i].start as int;
        assert(spans[left].start == blocks[i].start && spans[left].end == blocks[i].end);
        assert(spans[right].start == blocks[j].start && spans[right].end == blocks[j].end);
        assert(crate::cache_residency::coverage::holds(spans[left], token));
        assert(crate::cache_residency::coverage::holds(spans[right], token));
    }
}

} // verus!
