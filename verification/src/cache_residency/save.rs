//! Persisting a completed prefix as a prompt cache.

use vstd::prelude::*;
use vstd::string::StringExecFns;

use crate::cache_residency::append::copy_shape;
use crate::cache_residency::block::CacheBlockArrays;
use crate::cache_residency::catalog::{CacheBlockRecord, CacheResidencyManager, DiskLocation};
use crate::cache_residency::coverage::{walk_spans, SpanWalk, TokenSpan};
use crate::cache_residency::error::{CacheFailure, CacheResidencyError};
use crate::cache_residency::prompt::{
    PromptCacheBlock, PromptCacheDescriptor, PromptCacheManifest, PromptCacheOptions,
    PROMPT_CACHE_SCHEMA_VERSION,
};
use crate::cache_residency::shard::{array_names, hash_token_ids, join_path};
use crate::cache_residency::stats::CacheResidencyReport;
use crate::text::{padded_text, signed_text, usize_text, wide_decimal_text};

verus! {

/// Directory of the generations of a replaced prompt cache.
pub const PROMPT_CACHE_GENERATIONS_DIRECTORY: &'static str = ".generations";

/// File that names the current generation.
pub const PROMPT_CACHE_CURRENT_FILE: &'static str = "CURRENT";

/// Spans of the records of one layer, in catalog order.
pub open spec fn record_spans(records: Seq<CacheBlockRecord>, layer: usize) -> Seq<TokenSpan>
    decreases records.len(),
{
    if records.len() == 0 {
        Seq::empty()
    } else {
        let before = record_spans(records.drop_last(), layer);
        let id = records.last().id;
        if id.global_layer == layer {
            before.push(TokenSpan { start: id.start, end: id.end })
        } else {
            before
        }
    }
}

/// Why the records of a layer do not cover a prefix, if they do not.
pub open spec fn record_layer_failure(
    records: Seq<CacheBlockRecord>,
    layer: usize,
    tokens: usize,
) -> Option<CacheFailure> {
    let name = crate::text::decimal(layer as nat);
    match crate::cache_residency::coverage::walk(record_spans(records, layer), 0) {
        SpanWalk::Breaks { expected, found: _ } => Some(
            CacheFailure::MalformedManifest(
                "global layer "@ + name + " has a gap or overlap at "@
                    + crate::text::signed_decimal(expected as int),
            ),
        ),
        SpanWalk::Reaches(end) => if end != tokens as i64 {
            Some(
                CacheFailure::MalformedManifest(
                    "global layer "@ + name + " contains "@ + crate::text::signed_decimal(
                        end as int,
                    ) + " tokens, expected "@ + crate::text::decimal(tokens as nat),
                ),
            )
        } else {
            None
        },
    }
}

/// Why the first layer that fails does, of those from `from` up to `to`.
pub open spec fn record_layers_failure(
    records: Seq<CacheBlockRecord>,
    from: usize,
    to: usize,
    tokens: usize,
) -> Option<CacheFailure>
    decreases to - from,
{
    if from >= to {
        None
    } else {
        let failure = record_layer_failure(records, from, tokens);
        if failure is Some {
            failure
        } else {
            record_layers_failure(records, (from + 1) as usize, to, tokens)
        }
    }
}

/// Whether every record belongs to a layer from `from` up to `to`.
pub open spec fn layers_within(records: Seq<CacheBlockRecord>, from: usize, to: usize) -> bool {
    forall|i: int|
        0 <= i < records.len() ==> from <= (#[trigger] records[i]).id.global_layer < to
}

/// Why records do not make up a complete prefix of the persisted layers, if they do not.
pub open spec fn complete_prefix_failure(
    records: Seq<CacheBlockRecord>,
    from: usize,
    to: usize,
    tokens: usize,
) -> Option<CacheFailure> {
    if tokens == 0 {
        Some(CacheFailure::MalformedManifest("cannot persist an empty prefix"@))
    } else if !layers_within(records, from, to) {
        Some(
            CacheFailure::MalformedManifest(
                "cache contains blocks outside the persisted global layer range"@,
            ),
        )
    } else {
        record_layers_failure(records, from, to, tokens)
    }
}

fn collect_record_spans(records: &Vec<CacheBlockRecord>, layer: usize) -> (spans: Vec<TokenSpan>)
    ensures
        spans@ == record_spans(records@, layer),
{
    let mut spans: Vec<TokenSpan> = Vec::new();
    let mut index: usize = 0;
    while index < records.len()
        invariant
            index <= records@.len(),
            spans@ == record_spans(records@.take(index as int), layer),
        decreases records@.len() - index,
    {
        assert(records@.take(index + 1).drop_last() =~= records@.take(index as int));
        let id = records[index].id;
        if id.global_layer == layer {
            spans.push(TokenSpan { start: id.start, end: id.end });
        }
        index = index + 1;
    }
    assert(records@.take(index as int) =~= records@);
    spans
}

/// Checks that records make up a complete prefix of the persisted layers.
pub fn validate_complete_prefix(
    records: &Vec<CacheBlockRecord>,
    global_layer_start: usize,
    global_layer_end: usize,
    prefix_tokens: usize,
) -> (outcome: Result<(), CacheResidencyError>)
    ensures
        crate::cache_residency::error::failure_of(outcome) == complete_prefix_failure(
            records@,
            global_layer_start,
            global_layer_end,
            prefix_tokens,
        ),
{
    if prefix_tokens == 0 {
        return Err(
            CacheResidencyError::MalformedManifest("cannot persist an empty prefix".to_owned()),
        );
    }
    let mut index: usize = 0;
    while index < records.len()
        invariant
            index <= records@.len(),
            prefix_tokens != 0,
            forall|i: int|
                0 <= i < index ==> global_layer_start <= (#[trigger] records@[i]).id.global_layer
                    < global_layer_end,
        decreases records@.len() - index,
    {
        let layer: usize = records[index].id.global_layer;
        if layer < global_layer_start || layer >= global_layer_end {
            return Err(
                CacheResidencyError::MalformedManifest(
                    "cache contains blocks outside the persisted global layer range".to_owned(),
                ),
            );
        }
        index = index + 1;
    }
    let mut layer: usize = global_layer_start;
    while layer < global_layer_end
        invariant
            prefix_tokens != 0,
            layers_within(records@, global_layer_start, global_layer_end),
            record_layers_failure(records@, global_layer_start, global_layer_end, prefix_tokens)
                == record_layers_failure(records@, layer, global_layer_end, prefix_tokens),
        decreases global_layer_end - layer,
    {
        match walk_spans(collect_record_spans(records, layer), 0) {
            SpanWalk::Breaks { expected, found: _ } => {
                let mut text = "global layer ".to_owned();
                text.append(usize_text(layer).as_str());
                text.append(" has a gap or overlap at ");
                text.append(signed_text(expected).as_str());
                return Err(CacheResidencyError::MalformedManifest(text));
            },
            SpanWalk::Reaches(end) => {
                if end != prefix_tokens as i64 {
                    let mut text = "global layer ".to_owned();
                    text.append(usize_text(layer).as_str());
                    text.append(" contains ");
                    text.append(signed_text(end).as_str());
                    text.append(" tokens, expected ");
                    text.append(usize_text(prefix_tokens).as_str());
                    return Err(CacheResidencyError::MalformedManifest(text));
                }
            },
        }
        layer = layer + 1;
    }
    Ok(())
}

/// Where a prompt cache is to be written, as the file system shows it.
#[derive(Debug, Clone)]
pub struct PromptCacheDestination {
    /// Path of the prompt cache.
    pub path: String,
    /// Its parent directory, if it has one.
    pub parent: Option<String>,
    /// Its last component, if it has one and that is text.
    pub file_name: Option<String>,
    /// Whether something is there already.
    pub exists: bool,
    /// Whether that is a directory.
    pub is_directory: bool,
}

/// How a prompt cache is written: into a temporary directory that is then renamed.
#[derive(Debug, Clone)]
pub struct PromptCacheSavePlan {
    /// Directory that is created first.
    pub parent: String,
    /// Whether an existing prompt cache gets a new generation.
    pub replacing: bool,
    /// Directory of the generations.
    pub generations: String,
    /// Name of the new generation.
    pub generation_name: String,
    /// Directory that is written.
    pub temporary: String,
    /// Directory that it becomes.
    pub published: String,
}

/// Whether a descriptor's dimensions describe no cache.
pub open spec fn descriptor_invalid(descriptor: PromptCacheDescriptor) -> bool {
    ||| descriptor.layer_count == 0
    ||| descriptor.global_layer_start >= descriptor.global_layer_end
    ||| descriptor.global_layer_end > descriptor.layer_count
    ||| descriptor.batch_size == 0
    ||| descriptor.batch_size > i32::MAX
}

/// Why a prompt cache cannot be written, if it cannot.
pub open spec fn save_failure(
    destination: PromptCacheDestination,
    descriptor: PromptCacheDescriptor,
    replace_existing: bool,
) -> Option<CacheFailure> {
    if descriptor_invalid(descriptor) {
        Some(CacheFailure::MalformedManifest("invalid prompt-cache descriptor dimensions"@))
    } else if destination.parent is None {
        Some(CacheFailure::InvalidPromptCachePath(destination.path@))
    } else if destination.exists && !replace_existing {
        Some(CacheFailure::PromptCacheExists(destination.path@))
    } else if destination.exists && !destination.is_directory {
        Some(CacheFailure::InvalidPromptCachePath(destination.path@))
    } else if destination.file_name is None {
        Some(CacheFailure::InvalidPromptCachePath(destination.path@))
    } else {
        None
    }
}

/// Whether a plan writes a prompt cache for a destination: into a directory of its own,
/// which becomes the destination, or a generation of it where the destination exists.
pub open spec fn is_plan(
    plan: PromptCacheSavePlan,
    destination: PromptCacheDestination,
    nonce: u128,
) -> bool {
    let stamp = crate::text::decimal(nonce as nat);
    let generations = crate::cache_residency::shard::joined_path(
        destination.path@,
        PROMPT_CACHE_GENERATIONS_DIRECTORY@,
    );
    &&& plan.parent@ == destination.parent->Some_0@
    &&& plan.replacing == destination.exists
    &&& plan.generations@ == generations
    &&& plan.generation_name@ == "generation-"@ + stamp
    &&& plan.temporary@ == if destination.exists {
        crate::cache_residency::shard::joined_path(generations, ".tmp-"@ + stamp)
    } else {
        crate::cache_residency::shard::joined_path(
            destination.parent->Some_0@,
            "."@ + destination.file_name->Some_0@ + ".tmp-"@ + stamp,
        )
    }
    &&& plan.published@ == if destination.exists {
        crate::cache_residency::shard::joined_path(generations, "generation-"@ + stamp)
    } else {
        destination.path@
    }
}

/// Plans how a prompt cache is written. `nonce` tells apart concurrent writers.
pub fn plan_save(
    destination: &PromptCacheDestination,
    descriptor: &PromptCacheDescriptor,
    options: &PromptCacheOptions,
    nonce: u128,
) -> (outcome: Result<PromptCacheSavePlan, CacheResidencyError>)
    ensures
        crate::cache_residency::error::failure_of(outcome) == save_failure(
            *destination,
            *descriptor,
            options.replace_existing,
        ),
        outcome matches Ok(plan) ==> is_plan(plan, *destination, nonce),
{
    if descriptor.layer_count == 0 || descriptor.global_layer_start >= descriptor.global_layer_end
        || descriptor.global_layer_end > descriptor.layer_count || descriptor.batch_size == 0
        || descriptor.batch_size > i32::MAX as usize {
        return Err(
            CacheResidencyError::MalformedManifest(
                "invalid prompt-cache descriptor dimensions".to_owned(),
            ),
        );
    }
    let parent = match &destination.parent {
        Some(parent) => parent,
        None => {
            return Err(CacheResidencyError::InvalidPromptCachePath(destination.path.clone()));
        },
    };
    if destination.exists && !options.replace_existing {
        return Err(CacheResidencyError::PromptCacheExists(destination.path.clone()));
    }
    if destination.exists && !destination.is_directory {
        return Err(CacheResidencyError::InvalidPromptCachePath(destination.path.clone()));
    }
    let file_name = match &destination.file_name {
        Some(name) => name,
        None => {
            return Err(CacheResidencyError::InvalidPromptCachePath(destination.path.clone()));
        },
    };
    let stamp = wide_decimal_text(nonce);
    let mut generation_name = "generation-".to_owned();
    generation_name.append(stamp.as_str());
    let generations = join_path(destination.path.as_str(), PROMPT_CACHE_GENERATIONS_DIRECTORY);
    let (temporary, published) = if destination.exists {
        let mut name = ".tmp-".to_owned();
        name.append(stamp.as_str());
        (
            join_path(generations.as_str(), name.as_str()),
            join_path(generations.as_str(), generation_name.as_str()),
        )
    } else {
        let mut name = ".".to_owned();
        name.append(file_name.as_str());
        name.append(".tmp-");
        name.append(stamp.as_str());
        (join_path(parent.as_str(), name.as_str()), destination.path.clone())
    };
    Ok(
        PromptCacheSavePlan {
            parent: parent.clone(),
            replacing: destination.exists,
            generations,
            generation_name,
            temporary,
            published,
        },
    )
}

/// Name of the shard of the block at a catalog position.
pub open spec fn prompt_shard_name(index: int) -> Seq<char> {
    "block-"@ + crate::text::zero_padded(crate::text::decimal(index as nat), 8)
        + ".safetensors"@
}

/// Where the arrays of a persisted block come from.
#[derive(Debug)]
pub enum SaveSource<'a> {
    /// Resident arrays.
    Resident(&'a CacheBlockArrays),
    /// The block's own shard.
    Stored(&'a DiskLocation),
}

/// Whether a manifest entry describes a record, its shard and the digest of its payload.
pub open spec fn describes_record(
    block: PromptCacheBlock,
    record: CacheBlockRecord,
    index: int,
    digest: Seq<char>,
) -> bool {
    let names = crate::cache_residency::shard::array_names_of(record.id.representation);
    &&& block.global_layer == record.id.global_layer
    &&& block.representation == record.id.representation
    &&& block.start == record.id.start
    &&& block.end == record.id.end
    &&& block.rank == record.id.rank
    &&& block.shard@ == prompt_shard_name(index)
    &&& block.first_array@ == names.0
    &&& block.second_array@ == names.1
    &&& block.first_shape@ == record.first_shape@
    &&& block.second_shape@ == record.second_shape@
    &&& block.first_dtype@ == record.first_dtype@
    &&& block.second_dtype@ == record.second_dtype@
    &&& block.logical_bytes == record.bytes
    &&& block.payload_sha256@ == digest
}

/// Whether a manifest describes a catalog, a descriptor and a prefix.
pub open spec fn describes_catalog(
    manifest: PromptCacheManifest,
    manager: CacheResidencyManager,
    descriptor: PromptCacheDescriptor,
    prefix: Seq<u32>,
    options: PromptCacheOptions,
    digests: Seq<String>,
) -> bool {
    &&& manifest.schema_version == PROMPT_CACHE_SCHEMA_VERSION
    &&& manifest.model_family@ == descriptor.model_family@
    &&& manifest.effective_model_type@ == descriptor.effective_model_type@
    &&& manifest.checkpoint_fingerprint@ == descriptor.checkpoint_fingerprint@
    &&& manifest.architecture_fingerprint@ == descriptor.architecture_fingerprint@
    &&& manifest.layer_count == descriptor.layer_count
    &&& manifest.global_layer_start == descriptor.global_layer_start
    &&& manifest.global_layer_end == descriptor.global_layer_end
    &&& manifest.block_size_tokens == manager.options@.block_size_tokens
    &&& manifest.batch_size == descriptor.batch_size
    &&& manifest.total_prefix_tokens == prefix.len()
    &&& manifest.prefix_sha256@ == crate::cache_residency::shard::prefix_identity(prefix)
    &&& manifest.sliding_window == descriptor.sliding_window
    &&& manifest.sink_tokens == descriptor.sink_tokens
    &&& manifest.topology == descriptor.topology
    &&& manifest.application_namespace == options.application_namespace
    &&& manifest.blocks@.len() == manager.blocks@.len()
    &&& forall|i: int|
        0 <= i < manager.blocks@.len() ==> describes_record(
            #[trigger] manifest.blocks@[i],
            manager.blocks@[i],
            i,
            digests[i]@,
        )
}

impl CacheResidencyManager {
    /// Why the catalog cannot be persisted, if it cannot.
    pub open spec fn persistence_failure(
        self,
        descriptor: PromptCacheDescriptor,
        prefix_tokens: usize,
    ) -> Option<CacheFailure> {
        match self.first_leased() {
            Some(id) => Some(CacheFailure::BlockLeased(id)),
            None => complete_prefix_failure(
                self.blocks@,
                descriptor.global_layer_start,
                descriptor.global_layer_end,
                prefix_tokens,
            ),
        }
    }

    /// Checks that the catalog can be persisted: attention leases none of its blocks, and
    /// they make up a complete prefix.
    pub fn check_persistable(&self, descriptor: &PromptCacheDescriptor, prefix_tokens: usize) -> (outcome:
        Result<(), CacheResidencyError>)
        ensures
            crate::cache_residency::error::failure_of(outcome) == self.persistence_failure(
                *descriptor,
                prefix_tokens,
            ),
    {
        match self.find_leased() {
            Some(id) => {
                return Err(CacheResidencyError::BlockLeased(id));
            },
            None => {},
        }
        validate_complete_prefix(
            &self.blocks,
            descriptor.global_layer_start,
            descriptor.global_layer_end,
            prefix_tokens,
        )
    }

    /// Answers where the arrays of a block to persist come from.
    pub fn save_source(&self, index: usize) -> (outcome: Result<
        SaveSource<'_>,
        CacheResidencyError,
    >)
        requires
            index < self.blocks@.len(),
        ensures
            ({
                let record = self.blocks@[index as int];
                match record.arrays {
                    Some(arrays) => outcome matches Ok(SaveSource::Resident(source)) && *source
                        == arrays,
                    None => match record.disk {
                        Some(location) => outcome matches Ok(SaveSource::Stored(source))
                            && *source == location,
                        None => outcome matches Err(error) && error@
                            == CacheFailure::MissingDiskLocation(record.id),
                    },
                }
            }),
    {
        let record = &self.blocks[index];
        match &record.arrays {
            Some(arrays) => Ok(SaveSource::Resident(arrays)),
            None => match &record.disk {
                Some(location) => Ok(SaveSource::Stored(location)),
                None => Err(CacheResidencyError::MissingDiskLocation(record.id)),
            },
        }
    }

    /// Describes a block in a manifest.
    pub fn describe_block(&self, index: usize, payload_sha256: &String) -> (block: PromptCacheBlock)
        requires
            index < self.blocks@.len(),
        ensures
            describes_record(block, self.blocks@[index as int], index as int, payload_sha256@),
    {
        let record = &self.blocks[index];
        let mut shard = "block-".to_owned();
        shard.append(padded_text(usize_text(index).as_str(), 8).as_str());
        shard.append(".safetensors");
        let names = array_names(record.id.representation);
        PromptCacheBlock {
            global_layer: record.id.global_layer,
            representation: record.id.representation,
            start: record.id.start,
            end: record.id.end,
            rank: record.id.rank,
            shard,
            first_array: names.0.to_owned(),
            second_array: names.1.to_owned(),
            first_shape: copy_shape(&record.first_shape),
            second_shape: copy_shape(&record.second_shape),
            first_dtype: record.first_dtype.clone(),
            second_dtype: record.second_dtype.clone(),
            logical_bytes: record.bytes,
            payload_sha256: payload_sha256.clone(),
        }
    }

    /// Builds the manifest of the catalog, given the digest of each block's payload.
    pub fn build_manifest(
        &self,
        descriptor: PromptCacheDescriptor,
        prefix_token_ids: &[u32],
        options: &PromptCacheOptions,
        payload_digests: &Vec<String>,
    ) -> (manifest: PromptCacheManifest)
        requires
            payload_digests@.len() == self.blocks@.len(),
        ensures
            describes_catalog(
                manifest,
                *self,
                descriptor,
                prefix_token_ids@,
                *options,
                payload_digests@,
            ),
    {
        let mut blocks: Vec<PromptCacheBlock> = Vec::new();
        let mut index: usize = 0;
        while index < self.blocks.len()
            invariant
                index <= self.blocks@.len(),
                payload_digests@.len() == self.blocks@.len(),
                blocks@.len() == index,
                forall|i: int|
                    0 <= i < index ==> describes_record(
                        #[trigger] blocks@[i],
                        self.blocks@[i],
                        i,
                        payload_digests@[i]@,
                    ),
            decreases self.blocks@.len() - index,
        {
            let block = self.describe_block(index, &payload_digests[index]);
            blocks.push(block);
            index = index + 1;
        }
        let application_namespace = match &options.application_namespace {
            Some(name) => Some(name.clone()),
            None => None,
        };
        PromptCacheManifest {
            schema_version: PROMPT_CACHE_SCHEMA_VERSION,
            model_family: descriptor.model_family,
            effective_model_type: descriptor.effective_model_type,
            checkpoint_fingerprint: descriptor.checkpoint_fingerprint,
            architecture_fingerprint: descriptor.architecture_fingerprint,
            layer_count: descriptor.layer_count,
            global_layer_start: descriptor.global_layer_start,
            global_layer_end: descriptor.global_layer_end,
            block_size_tokens: self.options.block_size_tokens(),
            batch_size: descriptor.batch_size,
            total_prefix_tokens: prefix_token_ids.len(),
            prefix_sha256: hash_token_ids(prefix_token_ids),
            sliding_window: descriptor.sliding_window,
            sink_tokens: descriptor.sink_tokens,
            topology: descriptor.topology,
            application_namespace,
            blocks,
        }
    }

    /// Counts a prompt cache that was written.
    pub fn record_save(&mut self, logical_bytes: u64)
        requires
            old(self).wf(),
            old(self).report.prompt_cache_saves < u64::MAX,
            old(self).report.prompt_cache_bytes + logical_bytes <= u64::MAX,
        ensures
            final(self).wf(),
            *final(self) == (CacheResidencyManager {
                report: CacheResidencyReport {
                    prompt_cache_saves: (old(self).report.prompt_cache_saves + 1) as u64,
                    prompt_cache_bytes: (old(self).report.prompt_cache_bytes
                        + logical_bytes) as u64,
                    ..old(self).report
                },
                ..*old(self)
            }),
    {
        self.report.prompt_cache_saves = self.report.prompt_cache_saves + 1;
        self.report.prompt_cache_bytes = self.report.prompt_cache_bytes + logical_bytes;
        assert(self.report.activity() == old(self).report.activity());
    }
}

/// What is saved for a descriptor and a prefix opens for that descriptor and prefix.
pub proof fn saved_prompt_cache_is_compatible(
    manifest: PromptCacheManifest,
    manager: CacheResidencyManager,
    descriptor: PromptCacheDescriptor,
    prefix: Seq<u32>,
    options: PromptCacheOptions,
    digests: Seq<String>,
)
    requires
        describes_catalog(manifest, manager, descriptor, prefix, options, digests),
    ensures
        crate::cache_residency::prompt::compatibility_failure(manifest, descriptor, prefix) is None,
{
}

/// The manifest of a complete prefix covers it: where the catalog is persistable, no
/// layer of its manifest has a gap or an overlap, and none ends early or late.
pub proof fn saved_prefix_is_covered(
    manifest: PromptCacheManifest,
    manager: CacheResidencyManager,
    descriptor: PromptCacheDescriptor,
    prefix: Seq<u32>,
    options: PromptCacheOptions,
    digests: Seq<String>,
)
    requires
        describes_catalog(manifest, manager, descriptor, prefix, options, digests),
        prefix.len() <= i64::MAX,
        prefix.len() <= usize::MAX,
        forall|i: int|
            0 <= i < manager.blocks@.len() ==> (#[trigger] manager.blocks@[i]).id.start
                < manager.blocks@[i].id.end,
        complete_prefix_failure(
            manager.blocks@,
            descriptor.global_layer_start,
            descriptor.global_layer_end,
            prefix.len() as usize,
        ) is None,
    ensures
        crate::cache_residency::manifest::layers_failure(
            manifest.blocks@,
            manifest.global_layer_start,
            manifest.global_layer_end,
            manifest.total_prefix_tokens,
        ) is None,
{
    covered_layers(
        manifest.blocks@,
        manager.blocks@,
        manifest.global_layer_start,
        manifest.global_layer_end,
        manifest.total_prefix_tokens,
    );
}

proof fn covered_layers(
    blocks: Seq<PromptCacheBlock>,
    records: Seq<CacheBlockRecord>,
    from: usize,
    to: usize,
    tokens: usize,
)
    requires
        tokens <= i64::MAX,
        tokens > 0,
        same_spans(blocks, records),
        forall|i: int|
            0 <= i < records.len() ==> (#[trigger] records[i]).id.start < records[i].id.end,
        record_layers_failure(records, from, to, tokens) is None,
    ensures
        crate::cache_residency::manifest::layers_failure(blocks, from, to, tokens) is None,
    decreases to - from,
{
    if from < to {
        covered_layers(blocks, records, (from + 1) as usize, to, tokens);
        let listed = crate::cache_residency::manifest::layer_spans(blocks, from);
        let cataloged = record_spans(records, from);
        spans_agree(blocks, records, from);
        spans_are_filled(records, from);
        crate::cache_residency::coverage::walk_reaches_exactly_partitions(
            cataloged,
            0,
            tokens as i64,
        );
        crate::cache_residency::coverage::coverage_ignores_order(
            cataloged,
            listed,
            0,
            tokens as int,
        );
        crate::cache_residency::coverage::walk_reaches_exactly_partitions(
            listed,
            0,
            tokens as i64,
        );
        if listed.len() == 0 {
            assert(crate::cache_residency::coverage::covered(listed, 0));
        }
    }
}

/// Every block of a persistable catalog lies within the prefix.
pub(crate) proof fn persisted_blocks_lie_within(
    records: Seq<CacheBlockRecord>,
    from: usize,
    to: usize,
    tokens: usize,
    index: int,
)
    requires
        tokens <= i64::MAX,
        complete_prefix_failure(records, from, to, tokens) is None,
        forall|i: int|
            0 <= i < records.len() ==> (#[trigger] records[i]).id.start < records[i].id.end,
        0 <= index < records.len(),
    ensures
        0 <= records[index].id.start < records[index].id.end <= tokens,
        from <= records[index].id.global_layer < to,
{
    let layer = records[index].id.global_layer;
    assert(from <= records[index].id.global_layer < to);
    each_layer_is_complete(records, from, to, tokens, layer);
    let spans = record_spans(records, layer);
    spans_are_filled(records, layer);
    crate::cache_residency::coverage::walk_reaches_exactly_partitions(spans, 0, tokens as i64);
    record_is_among_spans(records, layer, index);
    let at = choose|at: int|
        0 <= at < spans.len() && spans[at] == (TokenSpan {
            start: records[index].id.start,
            end: records[index].id.end,
        });
    assert(0 <= spans[at].start && spans[at].end <= tokens);
}

proof fn each_layer_is_complete(
    records: Seq<CacheBlockRecord>,
    from: usize,
    to: usize,
    tokens: usize,
    layer: usize,
)
    requires
        record_layers_failure(records, from, to, tokens) is None,
        from <= layer < to,
    ensures
        record_layer_failure(records, layer, tokens) is None,
    decreases layer - from,
{
    if from < layer {
        each_layer_is_complete(records, (from + 1) as usize, to, tokens, layer);
    }
}

proof fn record_is_among_spans(records: Seq<CacheBlockRecord>, layer: usize, index: int)
    requires
        0 <= index < records.len(),
        records[index].id.global_layer == layer,
    ensures
        record_spans(records, layer).contains(
            TokenSpan { start: records[index].id.start, end: records[index].id.end },
        ),
    decreases records.len(),
{
    let rest = records.drop_last();
    let all = record_spans(records, layer);
    let span = TokenSpan { start: records[index].id.start, end: records[index].id.end };
    if index == records.len() - 1 {
        assert(all[all.len() - 1] == span);
    } else {
        assert(rest[index] == records[index]);
        record_is_among_spans(rest, layer, index);
        let before = record_spans(rest, layer);
        let at = choose|at: int| 0 <= at < before.len() && before[at] == span;
        assert(all[at] == span);
    }
}

/// Whether blocks and records have the same layers, representations and ranges.
spec fn same_spans(blocks: Seq<PromptCacheBlock>, records: Seq<CacheBlockRecord>) -> bool {
    &&& blocks.len() == records.len()
    &&& forall|i: int|
        0 <= i < records.len() ==> (#[trigger] blocks[i]).global_layer
            == records[i].id.global_layer && blocks[i].representation
            == records[i].id.representation && blocks[i].start == records[i].id.start
            && blocks[i].end == records[i].id.end
}

proof fn spans_are_filled(records: Seq<CacheBlockRecord>, layer: usize)
    requires
        forall|i: int|
            0 <= i < records.len() ==> (#[trigger] records[i]).id.start < records[i].id.end,
    ensures
        forall|i: int|
            0 <= i < record_spans(records, layer).len() ==> (#[trigger] record_spans(
                records,
                layer,
            )[i]).start < record_spans(records, layer)[i].end,
    decreases records.len(),
{
    if records.len() > 0 {
        let rest = records.drop_last();
        assert forall|i: int| 0 <= i < rest.len() implies (#[trigger] rest[i]).id.start
            < rest[i].id.end by {
            assert(rest[i] == records[i]);
        }
        spans_are_filled(rest, layer);
        let last = records[records.len() - 1];
        assert(last.id.start < last.id.end);
        let all = record_spans(records, layer);
        let before = record_spans(rest, layer);
        assert forall|i: int| 0 <= i < all.len() implies (#[trigger] all[i]).start
            < all[i].end by {
            if i < before.len() {
                assert(all[i] == before[i]);
            }
        }
    }
}

/// The manifest lists the spans of a layer that the catalog holds, perhaps in another
/// order.
proof fn spans_agree(blocks: Seq<PromptCacheBlock>, records: Seq<CacheBlockRecord>, layer: usize)
    requires
        same_spans(blocks, records),
    ensures
        crate::cache_residency::manifest::layer_spans(blocks, layer).to_multiset()
            == record_spans(records, layer).to_multiset(),
    decreases blocks.len(),
{
    broadcast use vstd::seq_lib::group_to_multiset_ensures;

    if blocks.len() > 0 {
        let fewer_blocks = blocks.drop_last();
        let fewer_records = records.drop_last();
        assert forall|i: int| 0 <= i < fewer_records.len() implies (
        #[trigger] fewer_blocks[i]).global_layer == fewer_records[i].id.global_layer
            && fewer_blocks[i].representation == fewer_records[i].id.representation
            && fewer_blocks[i].start == fewer_records[i].id.start && fewer_blocks[i].end
            == fewer_records[i].id.end by {
            assert(fewer_blocks[i] == blocks[i] && fewer_records[i] == records[i]);
        }
        spans_agree(fewer_blocks, fewer_records, layer);
        let block = blocks[blocks.len() - 1];
        let record = records[records.len() - 1];
        assert(block.global_layer == record.id.global_layer && block.representation
            == record.id.representation && block.start == record.id.start && block.end
            == record.id.end);
        let span = TokenSpan { start: block.start, end: block.end };
        let keyed = crate::cache_residency::manifest::spans_of(
            fewer_blocks,
            layer,
            crate::cache_residency::block::CacheRepresentation::KeyValue,
        );
        let compressed = crate::cache_residency::manifest::spans_of(
            fewer_blocks,
            layer,
            crate::cache_residency::block::CacheRepresentation::CompressedLatentRotary,
        );
        vstd::seq_lib::lemma_multiset_commutative(keyed, compressed);
        vstd::seq_lib::lemma_multiset_commutative(keyed.push(span), compressed);
        vstd::seq_lib::lemma_multiset_commutative(keyed, compressed.push(span));
        let before = crate::cache_residency::manifest::layer_spans(fewer_blocks, layer);
        let after = crate::cache_residency::manifest::layer_spans(blocks, layer);
        if block.global_layer == layer {
            assert(after.to_multiset() =~= before.to_multiset().insert(span));
        }
    } else {
        assert(crate::cache_residency::manifest::layer_spans(blocks, layer) =~= record_spans(
            records,
            layer,
        ));
    }
}

/// What the pointer to the current generation says.
pub open spec fn pointer_contents(generation_name: Seq<char>) -> Seq<char> {
    generation_name + "\n"@
}

/// Returns what the pointer to the current generation says, the file that it is first
/// written to, and the file that this one then replaces.
pub fn plan_publication(destination: &str, generation_name: &str, nonce: u128) -> (publication: (
    String,
    String,
    String,
))
    ensures
        publication.0@ == pointer_contents(generation_name@),
        publication.1@ == crate::cache_residency::shard::joined_path(
            destination@,
            "."@ + PROMPT_CACHE_CURRENT_FILE@ + ".tmp-"@ + crate::text::decimal(nonce as nat),
        ),
        publication.2@ == crate::cache_residency::shard::joined_path(
            destination@,
            PROMPT_CACHE_CURRENT_FILE@,
        ),
{
    let mut text = generation_name.to_owned();
    text.append("\n");
    let mut temporary = ".".to_owned();
    temporary.append(PROMPT_CACHE_CURRENT_FILE);
    temporary.append(".tmp-");
    temporary.append(wide_decimal_text(nonce).as_str());
    (
        text,
        join_path(destination, temporary.as_str()),
        join_path(destination, PROMPT_CACHE_CURRENT_FILE),
    )
}

/// What a save writes before it is published is nobody's prompt cache yet: its directory is
/// neither that of any generation nor the destination itself. A save that fails before it
/// is published leaves what can be inspected as it was.
pub proof fn unpublished_saves_are_unseen(
    generations: Seq<char>,
    parent: Seq<char>,
    file_name: Seq<char>,
    nonce: nat,
    published: nat,
)
    ensures
        crate::cache_residency::shard::joined_path(
            generations,
            ".tmp-"@ + crate::text::decimal(nonce),
        ) != crate::cache_residency::shard::joined_path(
            generations,
            "generation-"@ + crate::text::decimal(published),
        ),
        crate::cache_residency::shard::joined_path(
            parent,
            "."@ + file_name + ".tmp-"@ + crate::text::decimal(nonce),
        ) != crate::cache_residency::shard::joined_path(parent, file_name),
{
    reveal_strlit(".tmp-");
    reveal_strlit("generation-");
    reveal_strlit(".");
    let temporary = ".tmp-"@ + crate::text::decimal(nonce);
    let generation = "generation-"@ + crate::text::decimal(published);
    let left = crate::cache_residency::shard::joined_path(generations, temporary);
    let right = crate::cache_residency::shard::joined_path(generations, generation);
    let at = if generations.len() == 0 || generations.last() == '/' {
        generations.len() as int
    } else {
        generations.len() as int + 1
    };
    assert(left[at] == temporary[0]);
    assert(right[at] == generation[0]);
    let unfinished = "."@ + file_name + ".tmp-"@ + crate::text::decimal(nonce);
    assert(unfinished.len() > file_name.len());
    assert(crate::cache_residency::shard::joined_path(parent, unfinished).len()
        > crate::cache_residency::shard::joined_path(parent, file_name).len());
}

/// A prompt cache is written exactly where its dimensions describe a cache, its
/// destination has a parent and a name, and what stands there is a directory that may be
/// replaced, or nothing.
pub proof fn saves_are_refused_only_for_cause(
    destination: PromptCacheDestination,
    descriptor: PromptCacheDescriptor,
    replace_existing: bool,
)
    ensures
        save_failure(destination, descriptor, replace_existing) is None <==> {
            &&& 0 <= descriptor.global_layer_start < descriptor.global_layer_end
                <= descriptor.layer_count
            &&& 0 < descriptor.batch_size <= i32::MAX
            &&& destination.parent is Some
            &&& destination.file_name is Some
            &&& destination.exists ==> replace_existing && destination.is_directory
        },
{
}

/// A new prompt cache becomes its destination, one that replaces another a generation
/// inside it, and neither is written where it will be read.
pub proof fn saves_are_written_elsewhere(
    plan: PromptCacheSavePlan,
    destination: PromptCacheDestination,
    nonce: u128,
)
    requires
        is_plan(plan, destination, nonce),
        destination.parent is Some,
        destination.file_name is Some,
        destination.path@ == crate::cache_residency::shard::joined_path(
            destination.parent->Some_0@,
            destination.file_name->Some_0@,
        ),
    ensures
        plan.temporary@ != plan.published@,
        !destination.exists ==> plan.published@ == destination.path@,
        destination.exists ==> plan.published@ == crate::cache_residency::shard::joined_path(
            crate::cache_residency::shard::joined_path(
                destination.path@,
                PROMPT_CACHE_GENERATIONS_DIRECTORY@,
            ),
            plan.generation_name@,
        ),
        plan.replacing == destination.exists,
{
    let generations = crate::cache_residency::shard::joined_path(
        destination.path@,
        PROMPT_CACHE_GENERATIONS_DIRECTORY@,
    );
    unpublished_saves_are_unseen(
        generations,
        destination.parent->Some_0@,
        destination.file_name->Some_0@,
        nonce as nat,
        nonce as nat,
    );
}

/// Records make up a complete prefix exactly where there is a token, no record is of
/// another layer, and each of the layers is covered on its own.
pub proof fn complete_prefixes_cover_every_layer(
    records: Seq<CacheBlockRecord>,
    from: usize,
    to: usize,
    tokens: usize,
)
    ensures
        complete_prefix_failure(records, from, to, tokens) is None <==> {
            &&& tokens > 0
            &&& forall|i: int|
                0 <= i < records.len() ==> from <= (#[trigger] records[i]).id.global_layer < to
            &&& forall|layer: usize|
                from <= layer < to ==> #[trigger] record_layer_failure(records, layer, tokens) is None
        },
{
    layers_fail_alone(records, from, to, tokens);
}

proof fn layers_fail_alone(records: Seq<CacheBlockRecord>, from: usize, to: usize, tokens: usize)
    ensures
        record_layers_failure(records, from, to, tokens) is None <==> forall|layer: usize|
            from <= layer < to ==> #[trigger] record_layer_failure(records, layer, tokens) is None,
    decreases to - from,
{
    if from < to {
        layers_fail_alone(records, (from + 1) as usize, to, tokens);
        let here = record_layer_failure(records, from, tokens);
        if record_layers_failure(records, from, to, tokens) is None {
            assert forall|layer: usize| from <= layer < to implies #[trigger] record_layer_failure(
                records,
                layer,
                tokens,
            ) is None by {
                if layer > from {
                    assert(from + 1 <= layer);
                }
            }
        }
    }
}

/// The spans of a layer are those of its records, in order, and of no other.
pub proof fn spans_are_those_of_the_layer(
    records: Seq<CacheBlockRecord>,
    record: CacheBlockRecord,
    layer: usize,
)
    ensures
        record_spans(Seq::empty(), layer).len() == 0,
        record.id.global_layer == layer ==> {
            let spans = record_spans(records.push(record), layer);
            &&& spans.drop_last() == record_spans(records, layer)
            &&& spans.last().start == record.id.start
            &&& spans.last().end == record.id.end
            &&& spans.len() == record_spans(records, layer).len() + 1
        },
        record.id.global_layer != layer ==> record_spans(records.push(record), layer)
            == record_spans(records, layer),
{
    assert(records.push(record).drop_last() =~= records);
    if record.id.global_layer == layer {
        assert(record_spans(records.push(record), layer).drop_last() =~= record_spans(
            records,
            layer,
        ));
    }
}

/// A block is saved from where it is: from its arrays where it is resident, else from its
/// copy on disk.
pub proof fn blocks_are_saved_from_where_they_are(
    manager: CacheResidencyManager,
    index: usize,
    outcome: Result<SaveSource<'_>, CacheResidencyError>,
)
    requires
        manager.wf(),
        index < manager.blocks@.len(),
        call_ensures(CacheResidencyManager::save_source, (&manager, index), outcome),
    ensures
        outcome is Ok,
        manager.blocks@[index as int].tier is Disk ==> outcome->Ok_0 is Stored,
        !(manager.blocks@[index as int].tier is Disk) ==> outcome->Ok_0 is Resident,
{
    assert(manager.blocks@[index as int].placed());
}

} // verus!
