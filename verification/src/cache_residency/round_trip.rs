//! What opening a prompt cache gives back of what was saved.

use vstd::prelude::*;

use crate::cache_residency::block::{CacheBlockId, CacheRepresentation, CacheTier};
use crate::cache_residency::catalog::{CacheBlockRecord, CacheResidencyManager};
use crate::cache_residency::manifest::ShardProbe;
use crate::cache_residency::open::ShardMapping;
use crate::cache_residency::prompt::{
    PromptCacheDescriptor, PromptCacheManifest, PromptCacheModelIdentity, PromptCacheOptions,
};

verus! {

/// A block identity in another session.
pub open spec fn in_session(id: CacheBlockId, session_id: u64) -> CacheBlockId {
    CacheBlockId { session_id, ..id }
}

/// Whether a reopened block stands for a saved one: it has its tokens, shapes, types and
/// bytes, is read from the shard written for it, and is checked against the digest taken
/// of that shard.
pub open spec fn restores(
    reopened: CacheBlockRecord,
    saved: CacheBlockRecord,
    root: Seq<char>,
    index: int,
    digest: Seq<char>,
) -> bool {
    let names = crate::cache_residency::shard::array_names_of(saved.id.representation);
    &&& reopened.id == in_session(saved.id, reopened.id.session_id)
    &&& reopened.tier == CacheTier::Disk
    &&& reopened.imported
    &&& reopened.bytes == saved.bytes
    &&& reopened.first_shape@ == saved.first_shape@
    &&& reopened.second_shape@ == saved.second_shape@
    &&& reopened.first_dtype@ == saved.first_dtype@
    &&& reopened.second_dtype@ == saved.second_dtype@
    &&& reopened.disk matches Some(location) && {
        &&& location.path@ == crate::cache_residency::shard::joined_path(
            root,
            crate::cache_residency::save::prompt_shard_name(index),
        )
        &&& location.first_name@ == names.0
        &&& location.second_name@ == names.1
        &&& location.payload_sha256 matches Some(expected) && expected@ == digest
    }
}

/// Opening a saved catalog gives back its blocks: as many, and each of them.
pub proof fn reopened_blocks_are_the_saved_ones(
    saved: CacheResidencyManager,
    manifest: PromptCacheManifest,
    descriptor: PromptCacheDescriptor,
    prefix: Seq<u32>,
    options: PromptCacheOptions,
    digests: Seq<String>,
    reopened: CacheResidencyManager,
    root: Seq<char>,
    index: int,
)
    requires
        crate::cache_residency::save::describes_catalog(
            manifest,
            saved,
            descriptor,
            prefix,
            options,
            digests,
        ),
        crate::cache_residency::open::holds_imports(
            reopened,
            root,
            manifest,
            manifest.blocks@.len() as int,
        ),
        0 <= index < saved.blocks@.len(),
    ensures
        reopened.blocks@.len() == saved.blocks@.len(),
        reopened.has_block(in_session(saved.blocks@[index].id, reopened.session_id)),
        restores(
            reopened.block(in_session(saved.blocks@[index].id, reopened.session_id)),
            saved.blocks@[index],
            root,
            index,
            digests[index]@,
        ),
{
    let block = manifest.blocks@[index];
    assert(crate::cache_residency::save::describes_record(
        block,
        saved.blocks@[index],
        index,
        digests[index]@,
    ));
    assert(crate::cache_residency::open::holds_import(reopened, root, manifest, index));
    assert(crate::cache_residency::open::imported_id(reopened.session_id, block) == in_session(
        saved.blocks@[index].id,
        reopened.session_id,
    ));
}

/// Names of saved shards stay below their directory.
proof fn saved_shards_stay_below(index: int)
    requires
        0 <= index,
    ensures
        crate::cache_residency::shard::is_plain_relative(
            crate::cache_residency::save::prompt_shard_name(index),
        ),
{
    let digits = crate::text::zero_padded(crate::text::decimal(index as nat), 8);
    let name = crate::cache_residency::save::prompt_shard_name(index);
    crate::text::padded_numerals_are_digits(index as nat, 8);
    reveal_strlit("block-");
    reveal_strlit(".safetensors");
    assert(name[0] == 'b');
    assert forall|i: int| 0 <= i < name.len() implies !crate::cache_residency::shard::parent_segment_at(
        name,
        i,
    ) by {
        if 6 <= i < 6 + digits.len() {
            assert(name[i] == digits[i - 6]);
            assert(crate::text::is_digit(digits[i - 6]));
        } else if i >= 6 + digits.len() {
            assert(name[i] == ".safetensors"@[i - 6 - digits.len()]);
            if i + 1 < name.len() {
                assert(name[i + 1] == ".safetensors"@[i + 1 - 6 - digits.len()]);
            }
        } else {
            assert(name[i] == "block-"@[i]);
        }
    }
}

/// What was saved opens again for the same descriptor, prefix and block size, on a model
/// with these layouts, where every shard can be mapped.
pub proof fn saved_prompt_cache_opens(
    saved: CacheResidencyManager,
    manifest: PromptCacheManifest,
    descriptor: PromptCacheDescriptor,
    prefix: Seq<u32>,
    options: PromptCacheOptions,
    digests: Seq<String>,
    model: PromptCacheModelIdentity,
    root: Seq<char>,
    session_id: u64,
    mappings: Seq<ShardMapping>,
)
    requires
        crate::cache_residency::save::describes_catalog(
            manifest,
            saved,
            descriptor,
            prefix,
            options,
            digests,
        ),
        crate::cache_residency::catalog::blocks_ordered(saved.blocks@),
        forall|i: int|
            0 <= i < saved.blocks@.len() ==> (#[trigger] saved.blocks@[i]).id.session_id
                == saved.session_id,
        crate::cache_residency::prompt::identity_failure(descriptor, model) is None,
        crate::cache_residency::open::manifest_layouts_failure(manifest, model) is None,
        mappings.len() == manifest.blocks@.len(),
        forall|i: int| 0 <= i < mappings.len() ==> (#[trigger] mappings[i]) is Mapped,
    ensures
        crate::cache_residency::open::open_failure(
            root,
            descriptor,
            model,
            manifest,
            prefix,
            saved.options@.block_size_tokens,
            session_id,
            mappings,
        ) is None,
{
    crate::cache_residency::save::saved_prompt_cache_is_compatible(
        manifest,
        saved,
        descriptor,
        prefix,
        options,
        digests,
    );
    imports_succeed(saved, manifest, descriptor, prefix, options, digests, root, session_id, mappings, 0);
}

proof fn imports_succeed(
    saved: CacheResidencyManager,
    manifest: PromptCacheManifest,
    descriptor: PromptCacheDescriptor,
    prefix: Seq<u32>,
    options: PromptCacheOptions,
    digests: Seq<String>,
    root: Seq<char>,
    session_id: u64,
    mappings: Seq<ShardMapping>,
    from: int,
)
    requires
        crate::cache_residency::save::describes_catalog(
            manifest,
            saved,
            descriptor,
            prefix,
            options,
            digests,
        ),
        crate::cache_residency::catalog::blocks_ordered(saved.blocks@),
        forall|i: int|
            0 <= i < saved.blocks@.len() ==> (#[trigger] saved.blocks@[i]).id.session_id
                == saved.session_id,
        mappings.len() == manifest.blocks@.len(),
        forall|i: int| 0 <= i < mappings.len() ==> (#[trigger] mappings[i]) is Mapped,
        0 <= from <= manifest.blocks@.len(),
    ensures
        crate::cache_residency::open::imports_failure(
            root,
            session_id,
            manifest.blocks@,
            mappings,
            from,
        ) is None,
    decreases manifest.blocks@.len() - from,
{
    if from < manifest.blocks@.len() {
        imports_succeed(
            saved,
            manifest,
            descriptor,
            prefix,
            options,
            digests,
            root,
            session_id,
            mappings,
            from + 1,
        );
        saved_shards_stay_below(from);
        let blocks = manifest.blocks@;
        assert(crate::cache_residency::save::describes_record(
            blocks[from],
            saved.blocks@[from],
            from,
            digests[from]@,
        ));
        assert(mappings[from] is Mapped);
        if crate::cache_residency::open::listed_before(blocks, from) {
            let i = choose|i: int|
                0 <= i < from && crate::cache_residency::open::imported_id(0, #[trigger] blocks[i])
                    == crate::cache_residency::open::imported_id(0, blocks[from]);
            assert(crate::cache_residency::save::describes_record(
                blocks[i],
                saved.blocks@[i],
                i,
                digests[i]@,
            ));
            assert(saved.blocks@[i].id == saved.blocks@[from].id);
            crate::cache_residency::catalog::block_position_is_unique(saved.blocks@, i, from);
        }
    }
}

/// Whether the arrays of a record are those of one block of the described cache: their
/// ranks, batch and tokens are as the descriptor and the block's range say, and the block
/// belongs to the described rank.
pub open spec fn fits_descriptor(
    record: CacheBlockRecord,
    descriptor: PromptCacheDescriptor,
) -> bool {
    let first = record.first_shape@;
    let second = record.second_shape@;
    let axis = crate::cache_residency::manifest::sequence_axis(record.id.representation);
    &&& record.bytes > 0
    &&& record.id.rank == crate::cache_residency::manifest::topology_rank(descriptor.topology)
    &&& record.first_dtype@ == record.second_dtype@
    &&& match record.id.representation {
        CacheRepresentation::KeyValue => first.len() == 4 && first == second,
        CacheRepresentation::CompressedLatentRotary => first.len() == 3 && second.len() == 3,
    }
    &&& first[0] == descriptor.batch_size
    &&& second[0] == descriptor.batch_size
    &&& first[axis] == record.id.end - record.id.start
    &&& second[axis] == record.id.end - record.id.start
}

/// Whether a shard was found to hold exactly the two arrays of a record, with their
/// shapes, types and bytes, and to end with them.
pub open spec fn shard_holds(probe: ShardProbe, record: CacheBlockRecord) -> bool {
    let names = crate::cache_residency::shard::array_names_of(record.id.representation);
    probe matches ShardProbe::Described { file_len, header_len, contents } && {
        let tensors = crate::cache_residency::shard::tensors_by_name(contents.tensors@);
        let first = tensors[names.0];
        let second = tensors[names.1];
        &&& contents.tensors@.len() == 2
        &&& crate::cache_residency::shard::has_tensor(contents.tensors@, names.0)
        &&& crate::cache_residency::shard::has_tensor(contents.tensors@, names.1)
        &&& crate::cache_residency::manifest::same_dimensions(first.shape, record.first_shape@)
        &&& crate::cache_residency::manifest::same_dimensions(second.shape, record.second_shape@)
        &&& crate::cache_residency::shard::runtime_dtype(first.dtype) == record.first_dtype@
        &&& crate::cache_residency::shard::runtime_dtype(second.dtype) == record.second_dtype@
        &&& crate::cache_residency::manifest::stored_bytes(first)
            + crate::cache_residency::manifest::stored_bytes(second) == record.bytes
        &&& crate::cache_residency::shard::payload_start(header_len) + contents.payload_len
            == file_len
    }
}

/// The manifest of a persistable catalog is accepted: where the descriptor and its topology
/// are valid, every block fits the descriptor, and every shard holds its block, nothing of
/// the manifest is refused.
pub proof fn saved_manifest_is_accepted(
    saved: CacheResidencyManager,
    manifest: PromptCacheManifest,
    descriptor: PromptCacheDescriptor,
    prefix: Seq<u32>,
    options: PromptCacheOptions,
    digests: Seq<String>,
    directory: Seq<char>,
    probes: Seq<ShardProbe>,
)
    requires
        crate::cache_residency::save::describes_catalog(
            manifest,
            saved,
            descriptor,
            prefix,
            options,
            digests,
        ),
        saved.options@.block_size_tokens > 0,
        !crate::cache_residency::save::descriptor_invalid(descriptor),
        !crate::cache_residency::manifest::axis_invalid(descriptor.topology.pipeline),
        !crate::cache_residency::manifest::axis_invalid(descriptor.topology.tensor_parallel),
        !crate::cache_residency::manifest::axis_invalid(descriptor.topology.expert_parallel),
        prefix.len() <= i64::MAX,
        prefix.len() <= usize::MAX,
        crate::cache_residency::save::complete_prefix_failure(
            saved.blocks@,
            descriptor.global_layer_start,
            descriptor.global_layer_end,
            prefix.len() as usize,
        ) is None,
        forall|i: int|
            0 <= i < saved.blocks@.len() ==> (#[trigger] saved.blocks@[i]).id.start
                < saved.blocks@[i].id.end,
        forall|i: int|
            0 <= i < saved.blocks@.len() ==> fits_descriptor(
                #[trigger] saved.blocks@[i],
                descriptor,
            ),
        forall|i: int|
            0 <= i < saved.blocks@.len() ==> crate::cache_residency::shard::is_digest_text(
                (#[trigger] digests[i])@,
            ),
        probes.len() == saved.blocks@.len(),
        forall|i: int|
            0 <= i < probes.len() ==> shard_holds(#[trigger] probes[i], saved.blocks@[i]),
    ensures
        crate::cache_residency::manifest::manifest_failure(directory, manifest, probes) is None,
{
    crate::cache_residency::save::saved_prefix_is_covered(
        manifest,
        saved,
        descriptor,
        prefix,
        options,
        digests,
    );
    saved_blocks_are_accepted(
        saved,
        manifest,
        descriptor,
        prefix,
        options,
        digests,
        directory,
        probes,
        0,
    );
}

proof fn saved_blocks_are_accepted(
    saved: CacheResidencyManager,
    manifest: PromptCacheManifest,
    descriptor: PromptCacheDescriptor,
    prefix: Seq<u32>,
    options: PromptCacheOptions,
    digests: Seq<String>,
    directory: Seq<char>,
    probes: Seq<ShardProbe>,
    from: int,
)
    requires
        crate::cache_residency::save::describes_catalog(
            manifest,
            saved,
            descriptor,
            prefix,
            options,
            digests,
        ),
        !crate::cache_residency::save::descriptor_invalid(descriptor),
        prefix.len() <= i64::MAX,
        prefix.len() <= usize::MAX,
        crate::cache_residency::save::complete_prefix_failure(
            saved.blocks@,
            descriptor.global_layer_start,
            descriptor.global_layer_end,
            prefix.len() as usize,
        ) is None,
        forall|i: int|
            0 <= i < saved.blocks@.len() ==> (#[trigger] saved.blocks@[i]).id.start
                < saved.blocks@[i].id.end,
        forall|i: int|
            0 <= i < saved.blocks@.len() ==> fits_descriptor(
                #[trigger] saved.blocks@[i],
                descriptor,
            ),
        forall|i: int|
            0 <= i < saved.blocks@.len() ==> crate::cache_residency::shard::is_digest_text(
                (#[trigger] digests[i])@,
            ),
        probes.len() == saved.blocks@.len(),
        forall|i: int|
            0 <= i < probes.len() ==> shard_holds(#[trigger] probes[i], saved.blocks@[i]),
        0 <= from <= saved.blocks@.len(),
    ensures
        crate::cache_residency::manifest::blocks_failure(
            directory,
            manifest,
            probes,
            from,
        ) is None,
    decreases saved.blocks@.len() - from,
{
    if from < saved.blocks@.len() {
        saved_blocks_are_accepted(
            saved,
            manifest,
            descriptor,
            prefix,
            options,
            digests,
            directory,
            probes,
            from + 1,
        );
        let block = manifest.blocks@[from];
        let record = saved.blocks@[from];
        assert(crate::cache_residency::save::describes_record(
            block,
            record,
            from,
            digests[from]@,
        ));
        assert(fits_descriptor(record, descriptor));
        assert(crate::cache_residency::shard::is_digest_text(digests[from]@));
        crate::cache_residency::save::persisted_blocks_lie_within(
            saved.blocks@,
            descriptor.global_layer_start,
            descriptor.global_layer_end,
            prefix.len() as usize,
            from,
        );
        saved_shards_stay_below(from);
        assert(crate::cache_residency::manifest::block_entry_failure(manifest, block) is None);
        assert(shard_holds(probes[from], record));
        held_shard_is_accepted(directory, block, record, probes[from]);
    }
}

proof fn held_shard_is_accepted(
    directory: Seq<char>,
    block: crate::cache_residency::prompt::PromptCacheBlock,
    record: CacheBlockRecord,
    probe: ShardProbe,
)
    requires
        shard_holds(probe, record),
        crate::cache_residency::shard::is_plain_relative(block.shard@),
        block.first_array@ == crate::cache_residency::shard::array_names_of(
            record.id.representation,
        ).0,
        block.second_array@ == crate::cache_residency::shard::array_names_of(
            record.id.representation,
        ).1,
        block.first_shape@ == record.first_shape@,
        block.second_shape@ == record.second_shape@,
        block.first_dtype@ == record.first_dtype@,
        block.second_dtype@ == record.second_dtype@,
        block.logical_bytes == record.bytes,
    ensures
        crate::cache_residency::manifest::probe_failure(directory, block, probe) is None,
{
    match probe {
        ShardProbe::Described { file_len, header_len, contents } => {
            let tensors = crate::cache_residency::shard::tensors_by_name(contents.tensors@);
            let first = tensors[block.first_array@];
            let second = tensors[block.second_array@];
            assert(crate::cache_residency::manifest::dimensions_fit(first.shape)) by {
                assert forall|i: int| 0 <= i < first.shape.len() implies (
                #[trigger] first.shape[i]) <= i32::MAX by {
                    assert(first.shape[i] as int == record.first_shape@[i] as int);
                }
            }
            assert(crate::cache_residency::manifest::dimensions_fit(second.shape)) by {
                assert forall|i: int| 0 <= i < second.shape.len() implies (
                #[trigger] second.shape[i]) <= i32::MAX by {
                    assert(second.shape[i] as int == record.second_shape@[i] as int);
                }
            }
        },
        _ => {},
    }
}

/// A manifest is accepted wherever its files are: one that was accepted in the directory
/// that it was written to is accepted in the directory that this one becomes.
pub proof fn acceptance_survives_publication(
    written: Seq<char>,
    published: Seq<char>,
    manifest: PromptCacheManifest,
    probes: Seq<ShardProbe>,
)
    ensures
        crate::cache_residency::manifest::manifest_failure(written, manifest, probes) is None
            <==> crate::cache_residency::manifest::manifest_failure(
            published,
            manifest,
            probes,
        ) is None,
{
    blocks_are_accepted_anywhere(written, published, manifest, probes, 0);
}

proof fn blocks_are_accepted_anywhere(
    written: Seq<char>,
    published: Seq<char>,
    manifest: PromptCacheManifest,
    probes: Seq<ShardProbe>,
    from: int,
)
    requires
        0 <= from <= manifest.blocks@.len(),
    ensures
        crate::cache_residency::manifest::blocks_failure(written, manifest, probes, from) is None
            <==> crate::cache_residency::manifest::blocks_failure(
            published,
            manifest,
            probes,
            from,
        ) is None,
    decreases manifest.blocks@.len() - from,
{
    if from < manifest.blocks@.len() {
        blocks_are_accepted_anywhere(written, published, manifest, probes, from + 1);
    }
}

/// A saved prompt cache passes inspection. It is published only once its manifest was
/// accepted where it was written, and then it is accepted where it is looked for; it
/// records the identity of the prefix that it was saved for.
pub proof fn saved_prompt_cache_passes_inspection(
    saved: CacheResidencyManager,
    manifest: PromptCacheManifest,
    descriptor: PromptCacheDescriptor,
    prefix: Seq<u32>,
    options: PromptCacheOptions,
    digests: Seq<String>,
    written: Seq<char>,
    root: Seq<char>,
    probes: Seq<ShardProbe>,
)
    requires
        crate::cache_residency::save::describes_catalog(
            manifest,
            saved,
            descriptor,
            prefix,
            options,
            digests,
        ),
        crate::cache_residency::manifest::manifest_failure(written, manifest, probes) is None,
    ensures
        crate::cache_residency::manifest::manifest_failure(root, manifest, probes) is None,
        manifest.prefix_sha256@ == crate::cache_residency::shard::prefix_identity(prefix),
        manifest.total_prefix_tokens == prefix.len(),
{
    acceptance_survives_publication(written, root, manifest, probes);
}

} // verus!
