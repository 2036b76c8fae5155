//! What acceptance of persisted state amounts to: every manifest entry, shard, path and
//! digest that was accepted is what it claims to be.

use vstd::prelude::*;

use crate::cache_residency::block::CacheRepresentation;
use crate::cache_residency::catalog::DiskLocation;
use crate::cache_residency::manifest::ShardProbe;
use crate::cache_residency::open::{GenerationPointer, ShardMapping};
use crate::cache_residency::prompt::{
    PromptCacheBlock, PromptCacheDescriptor, PromptCacheLayerLayout, PromptCacheManifest,
    PromptCacheModelIdentity, PromptCacheTopology,
};
use crate::cache_residency::shard::{NamedArray, ShardHeader};

verus! {

/// The dimensions of an accepted manifest describe a cache: its own schema, a layer range
/// within the model, a batch, a block size and a prefix, and a rank within each world.
pub proof fn accepted_dimensions_describe_a_cache(manifest: PromptCacheManifest)
    ensures
        crate::cache_residency::manifest::dimensions_failure(manifest) is None <==> {
            &&& manifest.schema_version
                == crate::cache_residency::prompt::PROMPT_CACHE_SCHEMA_VERSION
            &&& manifest.block_size_tokens > 0
            &&& manifest.global_layer_start < manifest.global_layer_end <= manifest.layer_count
            &&& 0 < manifest.batch_size <= i32::MAX
            &&& manifest.total_prefix_tokens > 0
            &&& manifest.topology.pipeline matches Some((world, rank)) ==> rank < world
            &&& manifest.topology.tensor_parallel matches Some((world, rank)) ==> rank < world
            &&& manifest.topology.expert_parallel matches Some((world, rank)) ==> rank < world
        },
{
}

proof fn accepted_from(
    directory: Seq<char>,
    manifest: PromptCacheManifest,
    probes: Seq<ShardProbe>,
    from: int,
    index: int,
)
    requires
        0 <= from <= index < manifest.blocks@.len(),
        crate::cache_residency::manifest::blocks_failure(directory, manifest, probes, from)
            is None,
    ensures
        crate::cache_residency::manifest::block_entry_failure(manifest, manifest.blocks@[index])
            is None,
        crate::cache_residency::manifest::probe_failure(
            directory,
            manifest.blocks@[index],
            probes[index],
        ) is None,
    decreases index - from,
{
    if from < index {
        accepted_from(directory, manifest, probes, from + 1, index);
    }
}

/// Every entry of an accepted manifest describes a block of the cache: of a layer of the
/// range, with tokens within the prefix, of the recorded rank, batch and representation, with
/// two arrays of one element type that hold its tokens, and with a digest. Its shard is below
/// the directory and holds exactly these two arrays.
pub proof fn accepted_entries_describe_blocks(
    directory: Seq<char>,
    manifest: PromptCacheManifest,
    probes: Seq<ShardProbe>,
    index: int,
)
    requires
        crate::cache_residency::manifest::manifest_failure(directory, manifest, probes) is None,
        0 <= index < manifest.blocks@.len(),
    ensures
        ({
            let block = manifest.blocks@[index];
            &&& manifest.global_layer_start <= block.global_layer < manifest.global_layer_end
            &&& 0 <= block.start < block.end
            &&& manifest.total_prefix_tokens <= i64::MAX ==> block.end
                <= manifest.total_prefix_tokens
            &&& block.logical_bytes > 0
            &&& block.payload_sha256@.len() == 64
            &&& block.rank == crate::cache_residency::manifest::topology_rank(manifest.topology)
            &&& block.first_dtype@ == block.second_dtype@
            &&& block.first_shape@[0] == manifest.batch_size
            &&& block.second_shape@[0] == manifest.batch_size
            &&& match block.representation {
                CacheRepresentation::KeyValue => {
                    &&& block.first_array@ == "keys"@
                    &&& block.second_array@ == "values"@
                    &&& block.first_shape@.len() == 4
                    &&& block.first_shape@ == block.second_shape@
                    &&& block.end - block.start <= i32::MAX ==> block.first_shape@[2]
                        == block.end - block.start
                },
                CacheRepresentation::CompressedLatentRotary => {
                    &&& block.first_array@ == "latent"@
                    &&& block.second_array@ == "rotary_key"@
                    &&& block.first_shape@.len() == 3
                    &&& block.second_shape@.len() == 3
                    &&& block.end - block.start <= i32::MAX ==> block.first_shape@[1]
                        == block.end - block.start && block.second_shape@[1] == block.end
                        - block.start
                },
            }
            &&& crate::cache_residency::shard::is_plain_relative(block.shard@)
            &&& probes[index] matches ShardProbe::Described { file_len, header_len, contents } && {
                &&& contents.tensors@.len() == 2
                &&& crate::cache_residency::shard::has_tensor(
                    contents.tensors@,
                    block.first_array@,
                )
                &&& crate::cache_residency::shard::has_tensor(
                    contents.tensors@,
                    block.second_array@,
                )
                &&& file_len == 8 + header_len + contents.payload_len
            }
        }),
{
    accepted_from(directory, manifest, probes, 0, index);
}

/// The two tensors of an accepted shard have the shapes and element types of the manifest,
/// dimension by dimension, and their bytes are the block's.
pub proof fn accepted_shards_hold_the_arrays(
    path: Seq<char>,
    file_len: u64,
    header_len: u64,
    header: ShardHeader,
    block: PromptCacheBlock,
    axis: int,
)
    requires
        crate::cache_residency::manifest::shard_failure(path, file_len, header_len, header, block)
            is None,
    ensures
        ({
            let tensors = crate::cache_residency::shard::tensors_by_name(header.tensors@);
            let first = tensors[block.first_array@];
            let second = tensors[block.second_array@];
            &&& first.shape.len() == block.first_shape@.len()
            &&& second.shape.len() == block.second_shape@.len()
            &&& 0 <= axis < first.shape.len() ==> first.shape[axis] as int
                == block.first_shape@[axis]
            &&& 0 <= axis < second.shape.len() ==> second.shape[axis] as int
                == block.second_shape@[axis]
            &&& crate::cache_residency::shard::runtime_dtype(first.dtype) == block.first_dtype@
            &&& crate::cache_residency::shard::runtime_dtype(second.dtype) == block.second_dtype@
            &&& (first.start <= first.end && second.start <= second.end && block.logical_bytes
                < u64::MAX) ==> (first.end - first.start) + (second.end - second.start)
                == block.logical_bytes
            &&& header.tensors@.len() == 2
            &&& 8 + header_len + header.payload_len == file_len
        }),
{
}

/// An accepted prompt cache has the layouts of the loaded model: every block lies in a layer
/// that the model owns, with the representation and the dimensions of that layer, for the
/// saved batch and the tokens of the block.
pub proof fn accepted_layouts_are_the_models(
    manifest: PromptCacheManifest,
    model: PromptCacheModelIdentity,
    index: int,
)
    requires
        crate::cache_residency::open::manifest_layouts_failure(manifest, model) is None,
        0 <= index < manifest.blocks@.len(),
    ensures
        ({
            let block = manifest.blocks@[index];
            let batch = manifest.batch_size as i32;
            let tokens = (block.end - block.start) as i32;
            &&& model.global_layer_start <= block.global_layer < model.global_layer_end
            &&& manifest.batch_size <= i32::MAX
            &&& block.end - block.start <= i32::MAX
            &&& match model.layer_layouts@[block.global_layer - model.global_layer_start] {
                PromptCacheLayerLayout::KeyValue { num_key_value_heads, head_dim } => {
                    &&& block.representation == CacheRepresentation::KeyValue
                    &&& block.first_shape@ == seq![batch, num_key_value_heads, tokens, head_dim]
                    &&& block.second_shape@ == seq![batch, num_key_value_heads, tokens, head_dim]
                },
                PromptCacheLayerLayout::CompressedLatentRotary { latent_dim, rotary_dim } => {
                    &&& block.representation == CacheRepresentation::CompressedLatentRotary
                    &&& block.first_shape@ == seq![batch, tokens, latent_dim]
                    &&& block.second_shape@ == seq![batch, tokens, rotary_dim]
                },
            }
        }),
{
    layouts_accepted_from(manifest, model, 0, index);
}

proof fn layouts_accepted_from(
    manifest: PromptCacheManifest,
    model: PromptCacheModelIdentity,
    from: int,
    index: int,
)
    requires
        0 <= from <= index < manifest.blocks@.len(),
        crate::cache_residency::open::block_layouts_failure(manifest, model, from) is None,
    ensures
        crate::cache_residency::open::block_layout_failure(
            manifest.batch_size,
            model,
            manifest.blocks@[index],
        ) is None,
    decreases index - from,
{
    if from < index {
        layouts_accepted_from(manifest, model, from + 1, index);
    }
}

/// A prompt cache opens only for the loaded model, checkpoint and prefix that it was saved
/// for, with the requested block size, and with every shard mapped from below its directory.
pub proof fn opened_prompt_caches_are_trustworthy(
    root: Seq<char>,
    expected: PromptCacheDescriptor,
    model: PromptCacheModelIdentity,
    manifest: PromptCacheManifest,
    prefix: Seq<u32>,
    block_size_tokens: i32,
    session_id: u64,
    mappings: Seq<ShardMapping>,
    index: int,
)
    requires
        crate::cache_residency::open::open_failure(
            root,
            expected,
            model,
            manifest,
            prefix,
            block_size_tokens,
            session_id,
            mappings,
        ) is None,
    ensures
        manifest.checkpoint_fingerprint@ == expected.checkpoint_fingerprint@,
        manifest.model_family@ == model.model_family@,
        manifest.effective_model_type@ == model.effective_model_type@,
        manifest.architecture_fingerprint@ == model.architecture_fingerprint@,
        manifest.layer_count == model.layer_count,
        manifest.global_layer_start == model.global_layer_start,
        manifest.global_layer_end == model.global_layer_end,
        manifest.sliding_window == model.sliding_window,
        manifest.sink_tokens == model.sink_tokens,
        manifest.topology == model.topology,
        manifest.batch_size == expected.batch_size,
        manifest.total_prefix_tokens == prefix.len(),
        manifest.prefix_sha256@ == crate::cache_residency::shard::prefix_identity(prefix),
        manifest.block_size_tokens == block_size_tokens,
        0 <= index < manifest.blocks@.len() ==> {
            &&& mappings[index] is Mapped
            &&& crate::cache_residency::shard::is_plain_relative(manifest.blocks@[index].shard@)
        },
{
    if 0 <= index < manifest.blocks@.len() {
        imported_from(root, session_id, manifest.blocks@, mappings, 0, index);
    }
}

proof fn imported_from(
    root: Seq<char>,
    session_id: u64,
    blocks: Seq<PromptCacheBlock>,
    mappings: Seq<ShardMapping>,
    from: int,
    index: int,
)
    requires
        0 <= from <= index < blocks.len(),
        crate::cache_residency::open::imports_failure(root, session_id, blocks, mappings, from)
            is None,
    ensures
        crate::cache_residency::open::import_failure(
            root,
            session_id,
            blocks,
            mappings[index],
            index,
        ) is None,
    decreases index - from,
{
    if from < index {
        imported_from(root, session_id, blocks, mappings, from + 1, index);
    }
}

/// A path that stays below its directory is not absolute and never goes up: nowhere does a
/// `..` stand between slashes or at an end.
pub proof fn accepted_paths_stay_below(path: Seq<char>, at: int)
    requires
        crate::cache_residency::shard::is_plain_relative(path),
    ensures
        path.len() > 0 ==> path[0] != '/',
        path != seq!['.', '.'],
        path.len() >= 3 ==> path.take(3) != seq!['.', '.', '/'],
        path.len() >= 3 ==> path.skip(path.len() - 3) != seq!['/', '.', '.'],
        0 <= at && at + 4 <= path.len() ==> path.subrange(at, at + 4) != seq!['/', '.', '.', '/'],
{
    assert(path.len() > 0 ==> !crate::cache_residency::shard::parent_segment_at(path, 0));
    if path.len() >= 3 {
        if path.take(3) == seq!['.', '.', '/'] {
            assert(path.take(3)[0] == path[0] && path.take(3)[1] == path[1] && path.take(3)[2]
                == path[2]);
        }
        let end = path.skip(path.len() - 3);
        if end == seq!['/', '.', '.'] {
            assert(end[0] == path[path.len() - 3] && end[1] == path[path.len() - 2] && end[2]
                == path[path.len() - 1]);
            assert(crate::cache_residency::shard::parent_segment_at(path, path.len() - 2));
        }
    }
    if 0 <= at && at + 4 <= path.len() {
        let middle = path.subrange(at, at + 4);
        if middle == seq!['/', '.', '.', '/'] {
            assert(middle[0] == path[at] && middle[1] == path[at + 1] && middle[2] == path[at + 2]
                && middle[3] == path[at + 3]);
            assert(crate::cache_residency::shard::parent_segment_at(path, at + 1));
        }
    }
}

/// A generation pointer that is accepted names a directory that is there, of a plain name:
/// the root that it leads to is one directory below the generations.
pub proof fn accepted_pointers_name_generations(pointer: GenerationPointer)
    requires
        crate::cache_residency::open::pointer_failure(pointer) is None,
    ensures
        pointer matches GenerationPointer::Names { length, text, present } ==> {
            let name = crate::cache_residency::open::without_trailing_slashes(
                crate::text::trimmed(text@),
            );
            &&& 0 < length <= 256
            &&& present
            &&& name.len() > 0
            &&& !name.contains('/')
            &&& name != seq!['.', '.']
            &&& name != seq!['.']
        },
{
}

/// A header length is accepted exactly where it is positive, within the bound, and within
/// the file.
pub proof fn accepted_headers_lie_in_the_file(path: Seq<char>, file_len: u64, header_len: u64)
    ensures
        crate::cache_residency::shard::header_length_failure(path, file_len, header_len) is None
            <==> 0 < header_len
            <= crate::cache_residency::shard::MAX_PROMPT_CACHE_SHARD_HEADER_BYTES && 8 + header_len
            <= file_len,
{
}

/// A payload verifies exactly where the bytes behind the header have the recorded digest; a
/// block without a recorded digest is not checked, and one with a wrong digest is refused.
pub proof fn verified_payloads_have_their_digest(
    location: DiskLocation,
    shard: Seq<u8>,
    expected: Seq<char>,
)
    ensures
        crate::cache_residency::shard::payload_mismatch(shard, expected) is None <==> {
            let header_len = vstd::bytes::spec_u64_from_le_bytes(shard.take(8));
            &&& shard.len() >= 8
            &&& 8 + header_len <= shard.len()
            &&& crate::text::hex_of(crate::digest::sha256_digest(shard.skip(8 + header_len)))
                == expected
        },
        location.payload_sha256 is None ==> crate::cache_residency::shard::location_failure(
            location,
            shard,
        ) is None,
        location.payload_sha256 matches Some(digest) ==> (
        crate::cache_residency::shard::location_failure(location, shard) is None
            <==> crate::cache_residency::shard::payload_mismatch(shard, digest@) is None),
{
}

/// The names of the arrays of a block and the runtime names of element types are fixed.
pub proof fn stored_names_are_fixed()
    ensures
        crate::cache_residency::shard::array_names_of(CacheRepresentation::KeyValue) == (
            "keys"@,
            "values"@,
        ),
        crate::cache_residency::shard::array_names_of(
            CacheRepresentation::CompressedLatentRotary,
        ) == ("latent"@, "rotary_key"@),
        crate::cache_residency::shard::runtime_dtype("BOOL"@) == "Bool"@,
        crate::cache_residency::shard::runtime_dtype("U8"@) == "Uint8"@,
        crate::cache_residency::shard::runtime_dtype("U16"@) == "Uint16"@,
        crate::cache_residency::shard::runtime_dtype("U32"@) == "Uint32"@,
        crate::cache_residency::shard::runtime_dtype("U64"@) == "Uint64"@,
        crate::cache_residency::shard::runtime_dtype("I8"@) == "Int8"@,
        crate::cache_residency::shard::runtime_dtype("I16"@) == "Int16"@,
        crate::cache_residency::shard::runtime_dtype("I32"@) == "Int32"@,
        crate::cache_residency::shard::runtime_dtype("I64"@) == "Int64"@,
        crate::cache_residency::shard::runtime_dtype("F16"@) == "Float16"@,
        crate::cache_residency::shard::runtime_dtype("BF16"@) == "Bfloat16"@,
        crate::cache_residency::shard::runtime_dtype("F32"@) == "Float32"@,
        crate::cache_residency::shard::runtime_dtype("F64"@) == "Float64"@,
{
    reveal_strlit("BOOL");
    reveal_strlit("U8");
    reveal_strlit("U16");
    reveal_strlit("U32");
    reveal_strlit("U64");
    reveal_strlit("I8");
    reveal_strlit("I16");
    reveal_strlit("I32");
    reveal_strlit("I64");
    reveal_strlit("F16");
    reveal_strlit("BF16");
    reveal_strlit("F32");
    reveal_strlit("F64");
    assert("BOOL"@[0] == 'B' && "BOOL"@[1] == 'O');
    assert("U8"@[0] == 'U' && "U8"@[1] == '8');
    assert("U16"@[0] == 'U' && "U16"@[1] == '1');
    assert("U32"@[0] == 'U' && "U32"@[1] == '3');
    assert("U64"@[0] == 'U' && "U64"@[1] == '6');
    assert("I8"@[0] == 'I' && "I8"@[1] == '8');
    assert("I16"@[0] == 'I' && "I16"@[1] == '1');
    assert("I32"@[0] == 'I' && "I32"@[1] == '3');
    assert("I64"@[0] == 'I' && "I64"@[1] == '6');
    assert("F16"@[0] == 'F' && "F16"@[1] == '1');
    assert("BF16"@[0] == 'B' && "BF16"@[1] == 'F');
    assert("F32"@[0] == 'F' && "F32"@[1] == '3');
    assert("F64"@[0] == 'F' && "F64"@[1] == '6');
}

/// Loaded arrays make up a block exactly where there are two of them, one of each name; each
/// then takes the place that its name says.
pub proof fn loaded_arrays_go_by_name(location: DiskLocation, arrays: Seq<NamedArray>)
    ensures
        crate::cache_residency::shard::assembly_failure(location, arrays) is None ==> {
            let first = crate::cache_residency::shard::array_position(
                arrays,
                location.first_name@,
            )->Some_0;
            let rest = arrays.remove(first);
            let second = crate::cache_residency::shard::array_position(
                rest,
                location.second_name@,
            )->Some_0;
            &&& arrays.len() == 2
            &&& 0 <= first < 2
            &&& arrays[first].name@ == location.first_name@
            &&& second == 0
            &&& rest[second] == arrays[1 - first]
            &&& rest[second].name@ == location.second_name@
        },
        arrays.len() == 2 && location.first_name@ != location.second_name@ && (
        (arrays[0].name@ == location.first_name@ && arrays[1].name@ == location.second_name@) || (
        arrays[1].name@ == location.first_name@ && arrays[0].name@ == location.second_name@))
            ==> crate::cache_residency::shard::assembly_failure(location, arrays) is None,
{
    reveal_with_fuel(crate::cache_residency::shard::array_position, 4);
    array_position_names(arrays, location.first_name@);
    if arrays.len() == 2 {
        assert(arrays.remove(0) =~= seq![arrays[1]]);
        assert(arrays.remove(1) =~= seq![arrays[0]]);
    }
    if crate::cache_residency::shard::assembly_failure(location, arrays) is None {
        let first = crate::cache_residency::shard::array_position(
            arrays,
            location.first_name@,
        )->Some_0;
        array_position_names(arrays.remove(first), location.second_name@);
    }
}

proof fn array_position_names(arrays: Seq<NamedArray>, name: Seq<char>)
    ensures
        crate::cache_residency::shard::array_position(arrays, name) matches Some(at) ==> 0 <= at
            < arrays.len() && arrays[at].name@ == name,
    decreases arrays.len(),
{
    if arrays.len() > 0 && arrays[0].name@ != name {
        array_position_names(arrays.drop_first(), name);
    }
}

/// The blocks of a saved prompt cache have shards of their own.
pub proof fn saved_shards_have_different_names(left: nat, right: nat)
    requires
        left != right,
    ensures
        crate::cache_residency::save::prompt_shard_name(left as int)
            != crate::cache_residency::save::prompt_shard_name(right as int),
{
    let start = "block-"@.len() as int;
    let end = ".safetensors"@.len() as int;
    let one = crate::cache_residency::save::prompt_shard_name(left as int);
    let other = crate::cache_residency::save::prompt_shard_name(right as int);
    let first = crate::text::zero_padded(crate::text::decimal(left), 8);
    let second = crate::text::zero_padded(crate::text::decimal(right), 8);
    assert(one.subrange(start, one.len() - end) =~= first);
    assert(other.subrange(start, other.len() - end) =~= second);
    if one == other {
        crate::text::padded_numerals_differ(left, right, 8);
    }
}

/// A descriptor is accepted for saving exactly where it describes a cache: layers within the
/// model, and a batch that the runtime can hold.
pub proof fn saved_descriptors_describe_a_cache(descriptor: PromptCacheDescriptor)
    ensures
        !crate::cache_residency::save::descriptor_invalid(descriptor) <==> descriptor.global_layer_start
            < descriptor.global_layer_end <= descriptor.layer_count && 0 < descriptor.batch_size
            <= i32::MAX,
{
}

/// Blocks carry the ranks of their topology, axis by axis, and none where nothing is
/// split.
pub proof fn block_ranks_are_those_of_the_topology(topology: PromptCacheTopology)
    ensures
        crate::cache_residency::manifest::topology_rank(topology) is None <==> topology.pipeline
            is None && topology.tensor_parallel is None && topology.expert_parallel is None,
        crate::cache_residency::manifest::topology_rank(topology) matches Some(rank) ==> {
            &&& rank.pipeline_rank is Some <==> topology.pipeline is Some
            &&& topology.pipeline is Some ==> rank.pipeline_rank->Some_0
                == topology.pipeline->Some_0.1
            &&& rank.tensor_parallel_rank is Some <==> topology.tensor_parallel is Some
            &&& topology.tensor_parallel is Some ==> rank.tensor_parallel_rank->Some_0
                == topology.tensor_parallel->Some_0.1
            &&& rank.expert_parallel_rank is Some <==> topology.expert_parallel is Some
            &&& topology.expert_parallel is Some ==> rank.expert_parallel_rank->Some_0
                == topology.expert_parallel->Some_0.1
        },
{
}

/// An entry that describes a block is not refused: its layer and range lie in the prompt
/// cache, its rank is the topology's, and its arrays have the names, the batch and the
/// tokens that its representation asks for.
pub proof fn entries_of_blocks_are_accepted(manifest: PromptCacheManifest, block: PromptCacheBlock)
    requires
        manifest.global_layer_start <= block.global_layer < manifest.global_layer_end,
        0 <= block.start < block.end <= manifest.total_prefix_tokens <= i64::MAX,
        block.end - block.start <= i32::MAX,
        block.logical_bytes > 0,
        block.payload_sha256@.len() == 64,
        forall|i: int|
            0 <= i < 64 ==> crate::cache_residency::shard::is_hex_char(
                #[trigger] block.payload_sha256@[i],
            ),
        block.rank == crate::cache_residency::manifest::topology_rank(manifest.topology),
        block.first_dtype@ == block.second_dtype@,
        0 < manifest.batch_size <= i32::MAX,
        match block.representation {
            CacheRepresentation::KeyValue => {
                &&& block.first_array@ == "keys"@
                &&& block.second_array@ == "values"@
                &&& block.first_shape@.len() == 4
                &&& block.first_shape@[0] == manifest.batch_size
                &&& block.first_shape@[2] == block.end - block.start
                &&& block.second_shape@ == block.first_shape@
            },
            CacheRepresentation::CompressedLatentRotary => {
                &&& block.first_array@ == "latent"@
                &&& block.second_array@ == "rotary_key"@
                &&& block.first_shape@.len() == 3
                &&& block.second_shape@.len() == 3
                &&& block.first_shape@[0] == manifest.batch_size
                &&& block.second_shape@[0] == manifest.batch_size
                &&& block.first_shape@[1] == block.end - block.start
                &&& block.second_shape@[1] == block.end - block.start
            },
        },
    ensures
        crate::cache_residency::manifest::block_entry_failure(manifest, block) is None,
{
}

} // verus!
