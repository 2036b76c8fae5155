//! Persisted prompt caches: their manifests and what makes one acceptable.

use vstd::prelude::*;
use vstd::string::StringExecFns;

use crate::cache_residency::block::{CacheRankIdentity, CacheRepresentation};
use crate::cache_residency::error::{CacheFailure, CacheResidencyError};
use crate::text::usize_text;

verus! {

/// Persistence schema that this runtime reads and writes.
pub const PROMPT_CACHE_SCHEMA_VERSION: u32 = 2;

/// Compatibility identity supplied by a model when persisting a prefix cache.
#[derive(Debug, Clone)]
pub struct PromptCacheDescriptor {
    /// Stable architecture family, such as `llama` or `deepseek_v3`.
    pub model_family: String,
    /// Effective normalized model type.
    pub effective_model_type: String,
    /// Caller-verified checkpoint identity that is not based only on a path.
    pub checkpoint_fingerprint: String,
    /// Hash or canonical serialization of RoPE and cache-relevant architecture settings.
    pub architecture_fingerprint: String,
    /// Total model layer count.
    pub layer_count: usize,
    /// Inclusive global layer range stored by this rank.
    pub global_layer_start: usize,
    /// Exclusive global layer range stored by this rank.
    pub global_layer_end: usize,
    /// Prefix batch size.
    pub batch_size: usize,
    /// Sliding attention window, when present.
    pub sliding_window: Option<i32>,
    /// Attention sink or pinned-prefix token count.
    pub sink_tokens: usize,
    /// Distributed rank-local layout.
    pub topology: PromptCacheTopology,
}

/// Cache-relevant structure derived from a loaded model instance.
#[derive(Debug, Clone, PartialEq, Eq)]
pub struct PromptCacheModelIdentity {
    /// Stable architecture family.
    pub model_family: String,
    /// Effective normalized model type.
    pub effective_model_type: String,
    /// Identity of cache-relevant architecture settings.
    pub architecture_fingerprint: String,
    /// Total model layer count.
    pub layer_count: usize,
    /// Inclusive first owned layer.
    pub global_layer_start: usize,
    /// Exclusive end of the owned layers.
    pub global_layer_end: usize,
    /// Sliding attention window, when present.
    pub sliding_window: Option<i32>,
    /// Attention sink or pinned-prefix token count.
    pub sink_tokens: usize,
    /// Distributed rank-local layout.
    pub topology: PromptCacheTopology,
    /// Cache layouts of the owned layers, in order.
    pub layer_layouts: Vec<PromptCacheLayerLayout>,
}

/// Exact cache tensor layout expected by one model-owned decoder layer.
#[derive(Debug, Clone, Copy, PartialEq, Eq, Structural)]
pub enum PromptCacheLayerLayout {
    /// Keys and values.
    KeyValue {
        /// Key/value heads.
        num_key_value_heads: i32,
        /// Head dimension.
        head_dim: i32,
    },
    /// Compressed latent state and rotary keys.
    CompressedLatentRotary {
        /// Latent dimension.
        latent_dim: i32,
        /// Rotary dimension.
        rotary_dim: i32,
    },
}

/// Rank-local topology recorded in a prompt-cache manifest.
#[derive(Debug, Clone, Copy, PartialEq, Eq)]
pub struct PromptCacheTopology {
    /// Pipeline world size and rank.
    pub pipeline: Option<(usize, usize)>,
    /// Tensor-parallel world size and rank.
    pub tensor_parallel: Option<(usize, usize)>,
    /// Expert-parallel world size and rank.
    pub expert_parallel: Option<(usize, usize)>,
    /// Whether attention cache state is replicated on the expert-parallel axis.
    pub expert_parallel_cache_replicated: bool,
}

impl Default for PromptCacheTopology {
    fn default() -> (topology: Self)
        ensures
            topology == (PromptCacheTopology {
                pipeline: None,
                tensor_parallel: None,
                expert_parallel: None,
                expert_parallel_cache_replicated: true,
            }),
    {
        PromptCacheTopology {
            pipeline: None,
            tensor_parallel: None,
            expert_parallel: None,
            expert_parallel_cache_replicated: true,
        }
    }
}

/// Explicit persistence behavior for a reusable prefix cache.
#[derive(Debug, Clone)]
pub struct PromptCacheOptions {
    /// Optional application grouping label; never used for compatibility checks.
    pub application_namespace: Option<String>,
    /// Allows atomically replacing an existing destination.
    pub replace_existing: bool,
}

impl Default for PromptCacheOptions {
    fn default() -> (options: Self)
        ensures
            options.application_namespace is None,
            !options.replace_existing,
    {
        PromptCacheOptions { application_namespace: None, replace_existing: false }
    }
}

/// Versioned metadata that can be inspected without loading block arrays.
#[derive(Debug, Clone, PartialEq, Eq)]
pub struct PromptCacheManifest {
    /// Persistence schema version.
    pub schema_version: u32,
    /// Model architecture family.
    pub model_family: String,
    /// Effective normalized model type.
    pub effective_model_type: String,
    /// Checkpoint identity contract selected by the caller.
    pub checkpoint_fingerprint: String,
    /// RoPE and cache-relevant architecture identity.
    pub architecture_fingerprint: String,
    /// Total model layer count.
    pub layer_count: usize,
    /// Inclusive first global layer represented locally.
    pub global_layer_start: usize,
    /// Exclusive global layer boundary represented locally.
    pub global_layer_end: usize,
    /// Block size used by the producer.
    pub block_size_tokens: i32,
    /// Prefix batch size.
    pub batch_size: usize,
    /// Exact prefix token count.
    pub total_prefix_tokens: usize,
    /// SHA-256 over little-endian prefix token ids.
    pub prefix_sha256: String,
    /// Sliding attention window, when applicable.
    pub sliding_window: Option<i32>,
    /// Pinned prefix or sink token count.
    pub sink_tokens: usize,
    /// Distributed rank-local representation.
    pub topology: PromptCacheTopology,
    /// Optional non-authoritative application grouping label.
    pub application_namespace: Option<String>,
    /// Ordered immutable cache blocks.
    pub blocks: Vec<PromptCacheBlock>,
}

/// One cache block catalog entry in a prompt-cache manifest.
#[derive(Debug, Clone, PartialEq, Eq)]
pub struct PromptCacheBlock {
    /// Architecture-global layer identity.
    pub global_layer: usize,
    /// Stored attention representation.
    pub representation: CacheRepresentation,
    /// Inclusive absolute token position.
    pub start: i64,
    /// Exclusive absolute token position.
    pub end: i64,
    /// Optional rank identity.
    pub rank: Option<CacheRankIdentity>,
    /// Safe relative safetensors shard path.
    pub shard: String,
    /// First array name.
    pub first_array: String,
    /// Second array name.
    pub second_array: String,
    /// First array shape.
    pub first_shape: Vec<i32>,
    /// Second array shape.
    pub second_shape: Vec<i32>,
    /// First array dtype.
    pub first_dtype: String,
    /// Second array dtype.
    pub second_dtype: String,
    /// Logical bytes in both arrays.
    pub logical_bytes: u64,
    /// SHA-256 of the exact safetensors payload bytes.
    pub payload_sha256: String,
}

impl PromptCacheModelIdentity {
    /// Identical key/value layouts for every layer.
    pub fn key_value_layouts(layer_count: usize, num_key_value_heads: i32, head_dim: i32) -> (layouts:
        Vec<PromptCacheLayerLayout>)
        ensures
            layouts@ == Seq::new(
                layer_count as nat,
                |i: int| PromptCacheLayerLayout::KeyValue { num_key_value_heads, head_dim },
            ),
    {
        repeat_layout(
            PromptCacheLayerLayout::KeyValue { num_key_value_heads, head_dim },
            layer_count,
        )
    }

    /// Identical compressed layouts for every layer.
    pub fn compressed_layouts(layer_count: usize, latent_dim: i32, rotary_dim: i32) -> (layouts: Vec<
        PromptCacheLayerLayout,
    >)
        ensures
            layouts@ == Seq::new(
                layer_count as nat,
                |i: int|
                    PromptCacheLayerLayout::CompressedLatentRotary { latent_dim, rotary_dim },
            ),
    {
        repeat_layout(
            PromptCacheLayerLayout::CompressedLatentRotary { latent_dim, rotary_dim },
            layer_count,
        )
    }
}

fn repeat_layout(layout: PromptCacheLayerLayout, count: usize) -> (layouts: Vec<
    PromptCacheLayerLayout,
>)
    ensures
        layouts@ == Seq::new(count as nat, |i: int| layout),
{
    let mut layouts: Vec<PromptCacheLayerLayout> = Vec::new();
    let mut index: usize = 0;
    while index < count
        invariant
            index <= count,
            layouts@ == Seq::new(index as nat, |i: int| layout),
        decreases count - index,
    {
        layouts.push(layout);
        index = index + 1;
        assert(layouts@ =~= Seq::new(index as nat, |i: int| layout));
    }
    layouts
}

/// Compares two topology axes.
fn same_axis(left: Option<(usize, usize)>, right: Option<(usize, usize)>) -> (same: bool)
    ensures
        same == (left == right),
{
    match (left, right) {
        (None, None) => true,
        (Some((a, b)), Some((c, d))) => a == c && b == d,
        _ => false,
    }
}

fn same_topology(left: &PromptCacheTopology, right: &PromptCacheTopology) -> (same: bool)
    ensures
        same == (*left == *right),
{
    same_axis(left.pipeline, right.pipeline) && same_axis(
        left.tensor_parallel,
        right.tensor_parallel,
    ) && same_axis(left.expert_parallel, right.expert_parallel)
        && left.expert_parallel_cache_replicated == right.expert_parallel_cache_replicated
}

/// The message for a descriptor field that the loaded model contradicts.
pub open spec fn contradicted(field: Seq<char>) -> CacheFailure {
    CacheFailure::IncompatiblePromptCache(
        "caller descriptor "@ + field + " does not match the loaded model"@,
    )
}

fn contradiction(field: &str) -> (error: CacheResidencyError)
    ensures
        error@ == contradicted(field@),
{
    let mut text = "caller descriptor ".to_owned();
    text.append(field);
    text.append(" does not match the loaded model");
    CacheResidencyError::IncompatiblePromptCache(text)
}

/// Why a model's own layer range and layouts are inconsistent, if they are.
pub open spec fn layouts_failure(model: PromptCacheModelIdentity) -> Option<CacheFailure> {
    if model.global_layer_end < model.global_layer_start {
        Some(
            CacheFailure::IncompatiblePromptCache(
                "loaded model has an invalid prompt-cache layer range"@,
            ),
        )
    } else if model.layer_layouts@.len() != model.global_layer_end - model.global_layer_start {
        Some(
            CacheFailure::IncompatiblePromptCache(
                "loaded model supplied "@ + crate::text::decimal(model.layer_layouts@.len())
                    + " cache layouts for "@ + crate::text::decimal(
                    (model.global_layer_end - model.global_layer_start) as nat,
                ) + " owned layers"@,
            ),
        )
    } else {
        None
    }
}

/// Checks that a loaded model names a layer range, and one cache layout for each layer of it.
pub fn check_layouts(model: &PromptCacheModelIdentity) -> (outcome: Result<(), CacheResidencyError>)
    ensures
        crate::cache_residency::error::failure_of(outcome) == layouts_failure(*model),
{
    if model.global_layer_end < model.global_layer_start {
        return Err(
            CacheResidencyError::IncompatiblePromptCache(
                "loaded model has an invalid prompt-cache layer range".to_owned(),
            ),
        );
    }
    let owned: usize = model.global_layer_end - model.global_layer_start;
    if model.layer_layouts.len() != owned {
        let mut text = "loaded model supplied ".to_owned();
        text.append(usize_text(model.layer_layouts.len()).as_str());
        text.append(" cache layouts for ");
        text.append(usize_text(owned).as_str());
        text.append(" owned layers");
        return Err(CacheResidencyError::IncompatiblePromptCache(text));
    }
    Ok(())
}

/// Why a caller's descriptor does not describe the loaded model, if it does not. The
/// first field that differs is named.
pub open spec fn identity_failure(
    expected: PromptCacheDescriptor,
    model: PromptCacheModelIdentity,
) -> Option<CacheFailure> {
    if expected.model_family@ != model.model_family@ {
        Some(contradicted("model_family"@))
    } else if expected.effective_model_type@ != model.effective_model_type@ {
        Some(contradicted("effective_model_type"@))
    } else if expected.architecture_fingerprint@ != model.architecture_fingerprint@ {
        Some(contradicted("architecture_fingerprint"@))
    } else if expected.layer_count != model.layer_count {
        Some(contradicted("layer_count"@))
    } else if expected.global_layer_start != model.global_layer_start {
        Some(contradicted("global_layer_start"@))
    } else if expected.global_layer_end != model.global_layer_end {
        Some(contradicted("global_layer_end"@))
    } else if expected.sliding_window != model.sliding_window {
        Some(contradicted("sliding_window"@))
    } else if expected.sink_tokens != model.sink_tokens {
        Some(contradicted("sink_tokens"@))
    } else if expected.topology != model.topology {
        Some(contradicted("topology"@))
    } else {
        layouts_failure(model)
    }
}

/// Checks that a caller's descriptor describes the loaded model.
pub fn validate_prompt_cache_model_identity(
    expected: &PromptCacheDescriptor,
    model: &PromptCacheModelIdentity,
) -> (outcome: Result<(), CacheResidencyError>)
    ensures
        crate::cache_residency::error::failure_of(outcome) == identity_failure(*expected, *model),
        outcome is Ok <==> {
            &&& expected.model_family@ == model.model_family@
            &&& expected.effective_model_type@ == model.effective_model_type@
            &&& expected.architecture_fingerprint@ == model.architecture_fingerprint@
            &&& expected.layer_count == model.layer_count
            &&& expected.global_layer_start == model.global_layer_start
            &&& expected.global_layer_end == model.global_layer_end
            &&& expected.sliding_window == model.sliding_window
            &&& expected.sink_tokens == model.sink_tokens
            &&& expected.topology.pipeline == model.topology.pipeline
            &&& expected.topology.tensor_parallel == model.topology.tensor_parallel
            &&& expected.topology.expert_parallel == model.topology.expert_parallel
            &&& expected.topology.expert_parallel_cache_replicated
                == model.topology.expert_parallel_cache_replicated
            &&& model.layer_layouts@.len() == model.global_layer_end - model.global_layer_start
        },
{
    if expected.model_family != model.model_family {
        return Err(contradiction("model_family"));
    }
    if expected.effective_model_type != model.effective_model_type {
        return Err(contradiction("effective_model_type"));
    }
    if expected.architecture_fingerprint != model.architecture_fingerprint {
        return Err(contradiction("architecture_fingerprint"));
    }
    if expected.layer_count != model.layer_count {
        return Err(contradiction("layer_count"));
    }
    if expected.global_layer_start != model.global_layer_start {
        return Err(contradiction("global_layer_start"));
    }
    if expected.global_layer_end != model.global_layer_end {
        return Err(contradiction("global_layer_end"));
    }
    if expected.sliding_window != model.sliding_window {
        return Err(contradiction("sliding_window"));
    }
    if expected.sink_tokens != model.sink_tokens {
        return Err(contradiction("sink_tokens"));
    }
    if !same_topology(&expected.topology, &model.topology) {
        return Err(contradiction("topology"));
    }
    check_layouts(model)
}

/// The failure for a manifest field that differs from the descriptor.
pub open spec fn mismatched(field: Seq<char>) -> CacheFailure {
    CacheFailure::IncompatiblePromptCache(field + " mismatch"@)
}

fn mismatch(field: &str) -> (error: CacheResidencyError)
    ensures
        error@ == mismatched(field@),
{
    let mut text = field.to_owned();
    text.append(" mismatch");
    CacheResidencyError::IncompatiblePromptCache(text)
}

/// Why a manifest does not belong to a descriptor and prefix, if it does not.
pub open spec fn compatibility_failure(
    manifest: PromptCacheManifest,
    expected: PromptCacheDescriptor,
    prefix: Seq<u32>,
) -> Option<CacheFailure> {
    if manifest.model_family@ != expected.model_family@ {
        Some(mismatched("model_family"@))
    } else if manifest.effective_model_type@ != expected.effective_model_type@ {
        Some(mismatched("effective_model_type"@))
    } else if manifest.checkpoint_fingerprint@ != expected.checkpoint_fingerprint@ {
        Some(mismatched("checkpoint_fingerprint"@))
    } else if manifest.architecture_fingerprint@ != expected.architecture_fingerprint@ {
        Some(mismatched("architecture_fingerprint"@))
    } else if manifest.layer_count != expected.layer_count {
        Some(mismatched("layer_count"@))
    } else if manifest.global_layer_start != expected.global_layer_start {
        Some(mismatched("global_layer_start"@))
    } else if manifest.global_layer_end != expected.global_layer_end {
        Some(mismatched("global_layer_end"@))
    } else if manifest.batch_size != expected.batch_size {
        Some(mismatched("batch_size"@))
    } else if manifest.sliding_window != expected.sliding_window {
        Some(mismatched("sliding_window"@))
    } else if manifest.sink_tokens != expected.sink_tokens {
        Some(mismatched("sink_tokens"@))
    } else if manifest.topology != expected.topology {
        Some(mismatched("topology"@))
    } else if manifest.total_prefix_tokens != prefix.len() || manifest.prefix_sha256@
        != crate::cache_residency::shard::prefix_identity(prefix) {
        Some(CacheFailure::PrefixIdentityMismatch)
    } else {
        None
    }
}

/// Checks that a manifest belongs to a descriptor and a token prefix.
pub fn validate_compatibility(
    manifest: &PromptCacheManifest,
    expected: &PromptCacheDescriptor,
    prefix_token_ids: &[u32],
) -> (outcome: Result<(), CacheResidencyError>)
    ensures
        crate::cache_residency::error::failure_of(outcome) == compatibility_failure(
            *manifest,
            *expected,
            prefix_token_ids@,
        ),
        outcome is Ok <==> {
            &&& manifest.model_family@ == expected.model_family@
            &&& manifest.effective_model_type@ == expected.effective_model_type@
            &&& manifest.checkpoint_fingerprint@ == expected.checkpoint_fingerprint@
            &&& manifest.architecture_fingerprint@ == expected.architecture_fingerprint@
            &&& manifest.layer_count == expected.layer_count
            &&& manifest.global_layer_start == expected.global_layer_start
            &&& manifest.global_layer_end == expected.global_layer_end
            &&& manifest.batch_size == expected.batch_size
            &&& manifest.sliding_window == expected.sliding_window
            &&& manifest.sink_tokens == expected.sink_tokens
            &&& manifest.topology.pipeline == expected.topology.pipeline
            &&& manifest.topology.tensor_parallel == expected.topology.tensor_parallel
            &&& manifest.topology.expert_parallel == expected.topology.expert_parallel
            &&& manifest.topology.expert_parallel_cache_replicated
                == expected.topology.expert_parallel_cache_replicated
            &&& manifest.total_prefix_tokens == prefix_token_ids@.len()
            &&& manifest.prefix_sha256@ == crate::cache_residency::shard::prefix_identity(
                prefix_token_ids@,
            )
        },
{
    if manifest.model_family != expected.model_family {
        return Err(mismatch("model_family"));
    }
    if manifest.effective_model_type != expected.effective_model_type {
        return Err(mismatch("effective_model_type"));
    }
    if manifest.checkpoint_fingerprint != expected.checkpoint_fingerprint {
        return Err(mismatch("checkpoint_fingerprint"));
    }
    if manifest.architecture_fingerprint != expected.architecture_fingerprint {
        return Err(mismatch("architecture_fingerprint"));
    }
    if manifest.layer_count != expected.layer_count {
        return Err(mismatch("layer_count"));
    }
    if manifest.global_layer_start != expected.global_layer_start {
        return Err(mismatch("global_layer_start"));
    }
    if manifest.global_layer_end != expected.global_layer_end {
        return Err(mismatch("global_layer_end"));
    }
    if manifest.batch_size != expected.batch_size {
        return Err(mismatch("batch_size"));
    }
    if manifest.sliding_window != expected.sliding_window {
        return Err(mismatch("sliding_window"));
    }
    if manifest.sink_tokens != expected.sink_tokens {
        return Err(mismatch("sink_tokens"));
    }
    if !same_topology(&manifest.topology, &expected.topology) {
        return Err(mismatch("topology"));
    }
    if manifest.total_prefix_tokens != prefix_token_ids.len() {
        return Err(CacheResidencyError::PrefixIdentityMismatch);
    }
    let identity = crate::cache_residency::shard::hash_token_ids(prefix_token_ids);
    if manifest.prefix_sha256 != identity {
        return Err(CacheResidencyError::PrefixIdentityMismatch);
    }
    Ok(())
}

/// A prompt cache is compatible only with the exact prefix it was made from, up to a
/// collision of the digest: a manifest that is compatible with two prefixes of one
/// identity names the same number of tokens and the same digest for both.
pub proof fn compatible_prefixes_share_identity(
    manifest: PromptCacheManifest,
    expected: PromptCacheDescriptor,
    left: Seq<u32>,
    right: Seq<u32>,
)
    requires
        compatibility_failure(manifest, expected, left) is None,
        compatibility_failure(manifest, expected, right) is None,
    ensures
        left.len() == right.len(),
        crate::cache_residency::shard::prefix_identity(left)
            == crate::cache_residency::shard::prefix_identity(right),
{
}

/// A prompt cache is accepted only for what it was made for: the same model, checkpoint,
/// architecture, layers, batch, attention and ranks, and a prefix of its length and digest.
pub proof fn accepted_prompt_caches_belong(
    manifest: PromptCacheManifest,
    expected: PromptCacheDescriptor,
    prefix: Seq<u32>,
)
    ensures
        compatibility_failure(manifest, expected, prefix) is None <==> {
            &&& manifest.model_family@ == expected.model_family@
            &&& manifest.effective_model_type@ == expected.effective_model_type@
            &&& manifest.checkpoint_fingerprint@ == expected.checkpoint_fingerprint@
            &&& manifest.architecture_fingerprint@ == expected.architecture_fingerprint@
            &&& manifest.layer_count == expected.layer_count
            &&& manifest.global_layer_start == expected.global_layer_start
            &&& manifest.global_layer_end == expected.global_layer_end
            &&& manifest.batch_size == expected.batch_size
            &&& manifest.sliding_window == expected.sliding_window
            &&& manifest.sink_tokens == expected.sink_tokens
            &&& manifest.topology.pipeline == expected.topology.pipeline
            &&& manifest.topology.tensor_parallel == expected.topology.tensor_parallel
            &&& manifest.topology.expert_parallel == expected.topology.expert_parallel
            &&& manifest.topology.expert_parallel_cache_replicated
                == expected.topology.expert_parallel_cache_replicated
            &&& manifest.total_prefix_tokens == prefix.len()
            &&& manifest.prefix_sha256@ == crate::cache_residency::shard::prefix_identity(prefix)
        },
{
}

/// A caller's descriptor is accepted only for the loaded model itself: the same family,
/// type, architecture, layers, attention and ranks, with one layout for each owned layer.
pub proof fn accepted_descriptors_describe_the_model(
    expected: PromptCacheDescriptor,
    model: PromptCacheModelIdentity,
)
    ensures
        identity_failure(expected, model) is None <==> {
            &&& expected.model_family@ == model.model_family@
            &&& expected.effective_model_type@ == model.effective_model_type@
            &&& expected.architecture_fingerprint@ == model.architecture_fingerprint@
            &&& expected.layer_count == model.layer_count
            &&& expected.global_layer_start == model.global_layer_start
            &&& expected.global_layer_end == model.global_layer_end
            &&& expected.sliding_window == model.sliding_window
            &&& expected.sink_tokens == model.sink_tokens
            &&& expected.topology.pipeline == model.topology.pipeline
            &&& expected.topology.tensor_parallel == model.topology.tensor_parallel
            &&& expected.topology.expert_parallel == model.topology.expert_parallel
            &&& expected.topology.expert_parallel_cache_replicated
                == model.topology.expert_parallel_cache_replicated
            &&& model.layer_layouts@.len() == model.global_layer_end - model.global_layer_start
        },
{
}

/// A prompt cache that opens for a loaded model was saved for that model: what the caller
/// claims in between changes nothing.
pub proof fn opened_prompt_caches_belong_to_the_model(
    manifest: PromptCacheManifest,
    expected: PromptCacheDescriptor,
    model: PromptCacheModelIdentity,
    prefix: Seq<u32>,
)
    requires
        identity_failure(expected, model) is None,
        compatibility_failure(manifest, expected, prefix) is None,
    ensures
        manifest.model_family@ == model.model_family@,
        manifest.effective_model_type@ == model.effective_model_type@,
        manifest.architecture_fingerprint@ == model.architecture_fingerprint@,
        manifest.layer_count == model.layer_count,
        manifest.global_layer_start == model.global_layer_start,
        manifest.global_layer_end == model.global_layer_end,
        manifest.sliding_window == model.sliding_window,
        manifest.sink_tokens == model.sink_tokens,
        manifest.topology == model.topology,
{
}

} // verus!
