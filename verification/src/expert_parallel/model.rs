//! An executable expert-parallel rank: what each request decides before and after the
//! array work.

use vstd::prelude::*;
use vstd::string::StringExecFns;

use crate::cache_residency::catalog::CacheResidencyManager;
use crate::cache_residency::block::CacheRankIdentity;
use crate::cache_residency::open::{open_prompt_cache, ShardMapping};
use crate::cache_residency::options::{CacheResidencyPolicy, PagedCacheOptions};
use crate::cache_residency::prompt::{
    validate_prompt_cache_model_identity, PromptCacheDescriptor, PromptCacheLayerLayout,
    PromptCacheManifest, PromptCacheModelIdentity, PromptCacheTopology,
};
use crate::cache_residency::shard::join_path;
use crate::error::{Error, Failure};
use crate::expert_cache::acquire::ExpertCache;
use crate::expert_cache::catalog::ExpertPass;
use crate::expert_cache::report::{ExpertCacheReport, ResidencyReport};
use crate::expert_parallel::caches::{CacheKind, ExpertParallelCache};
use crate::expert_parallel::loading::{ExpertParallelInfo, ParallelTopology};
use crate::expert_parallel::statistics::RoutingStatistics;
use crate::text::{list_text, padded_text, usize_text};

verus! {

/// What a prompt cache needs to know of an architecture, and what else decisions read.
#[derive(Debug)]
pub enum ExpertArchitecture {
    /// DeepSeek with compressed-latent attention.
    DeepSeek {
        /// Effective model type.
        model_type: String,
        /// Identity of cache-relevant settings.
        architecture_fingerprint: String,
        /// Decoder layers.
        num_hidden_layers: i32,
        /// Latent dimension.
        kv_lora_rank: i32,
        /// Rotary dimension.
        qk_rope_head_dim: i32,
    },
    /// Qwen3.
    Qwen3 {
        /// Decoder layers.
        layers: usize,
    },
    /// GPT-OSS.
    GptOss {
        /// Effective model type.
        model_type: String,
        /// Identity of cache-relevant settings.
        architecture_fingerprint: String,
        /// Decoder layers.
        num_hidden_layers: i32,
        /// Sliding attention window.
        sliding_window: i32,
        /// Key/value heads.
        num_key_value_heads: i32,
        /// Head dimension.
        head_dim: i32,
    },
    /// Inkling.
    Inkling,
    /// LFM2.
    Lfm2,
    /// Nemotron-H.
    NemotronH,
    /// Qwen3-Next or Qwen3.5.
    QwenHybrid {
        /// Layers of the embedded multi-token-prediction head.
        mtp_layers: usize,
    },
    /// Qwen3-VL-MoE.
    Qwen3Vl,
}

/// Where multi-token-prediction weights come from.
#[derive(Debug, Clone, Copy, PartialEq, Eq, Structural)]
pub enum MtpCheckpointKind {
    /// From the target checkpoint itself.
    Embedded,
}

/// Whether a target can generate with multi-token prediction.
#[derive(Debug, Clone, Copy, PartialEq, Eq, Structural)]
pub enum MtpCapability {
    /// It can.
    Ready {
        /// Where the weights come from.
        checkpoint: MtpCheckpointKind,
    },
    /// It cannot.
    Unavailable,
}

/// How a forward pass is executed.
#[derive(Debug, Clone, Copy, PartialEq, Eq, Structural)]
pub enum ForwardPlan {
    /// Experts come from the cache, counted under this pass.
    Cached(ExpertPass),
    /// Experts are resident.
    Resident,
}

/// One paged layer cache to create.
#[derive(Debug, Clone, Copy, PartialEq, Eq, Structural)]
pub struct PagedLayer {
    /// Decoder layer.
    pub layer: usize,
    /// Sliding window, if any.
    pub max_size: Option<i32>,
    /// Tokens pinned at the start.
    pub sink_tokens: usize,
    /// Rank that the blocks belong to.
    pub rank: CacheRankIdentity,
}

/// How a replicated cache is allocated.
#[derive(Debug)]
pub enum CachePlan {
    /// The architecture's ordinary cache.
    Device,
    /// A paged cache that the architecture builds over a manager.
    Managed {
        /// The manager of all layers.
        manager: CacheResidencyManager,
        /// Rank that the blocks belong to.
        rank: CacheRankIdentity,
    },
    /// Paged key/value caches of single layers over one manager.
    Layers {
        /// The manager of all layers.
        manager: CacheResidencyManager,
        /// The layers, in order.
        layers: Vec<PagedLayer>,
    },
}

/// Executable rank-local pure expert-parallel model. `M` manages the residency of
/// cached experts.
#[derive(Debug)]
pub struct ExpertParallelModel<M> {
    /// Ranks and sizes of the parallel axes.
    pub topology: ParallelTopology,
    /// Placement, assignment and memory diagnostics.
    pub info: ExpertParallelInfo,
    /// The architecture.
    pub architecture: ExpertArchitecture,
    /// The cache of routed experts, where they are not resident.
    pub expert_cache: Option<ExpertCache<M>>,
    /// Counters of the most recent forward.
    pub latest_statistics: RoutingStatistics,
    /// Counters of all forwards.
    pub cumulative_statistics: RoutingStatistics,
}

/// Whether a cache representation fits an architecture.
pub open spec fn cache_fits(architecture: ExpertArchitecture, cache: CacheKind) -> bool {
    match architecture {
        ExpertArchitecture::DeepSeek { .. } => cache == CacheKind::DeepSeek,
        ExpertArchitecture::Qwen3 { .. } => cache == CacheKind::Qwen3 || cache
            == CacheKind::Qwen3Sliding || cache == CacheKind::Qwen3Paged,
        ExpertArchitecture::GptOss { .. } => cache == CacheKind::GptOss,
        ExpertArchitecture::Inkling => cache == CacheKind::Inkling,
        ExpertArchitecture::Lfm2 => cache == CacheKind::Lfm2,
        ExpertArchitecture::NemotronH => cache == CacheKind::NemotronH,
        ExpertArchitecture::QwenHybrid { .. } => cache == CacheKind::QwenHybrid,
        ExpertArchitecture::Qwen3Vl => cache == CacheKind::Qwen3Vl,
    }
}

/// Whether an architecture executes with resident experts.
pub open spec fn runs_resident(architecture: ExpertArchitecture) -> bool {
    architecture is DeepSeek || architecture is Qwen3
}

/// The representation of the ordinary cache of an architecture.
pub open spec fn ordinary_cache(architecture: ExpertArchitecture) -> CacheKind {
    match architecture {
        ExpertArchitecture::DeepSeek { .. } => CacheKind::DeepSeek,
        ExpertArchitecture::Qwen3 { .. } => CacheKind::Qwen3,
        ExpertArchitecture::GptOss { .. } => CacheKind::GptOss,
        ExpertArchitecture::Inkling => CacheKind::Inkling,
        ExpertArchitecture::Lfm2 => CacheKind::Lfm2,
        ExpertArchitecture::NemotronH => CacheKind::NemotronH,
        ExpertArchitecture::QwenHybrid { .. } => CacheKind::QwenHybrid,
        ExpertArchitecture::Qwen3Vl => CacheKind::Qwen3Vl,
    }
}

/// A forward pass that ends well reports its own counters as the latest ones and adds
/// exactly these to those of all passes. One that is refused or fails leaves both as they
/// were. Requests from another group, or with tokens of another rank, are refused.
pub proof fn forward_passes_are_counted_once<M>(
    model: ExpertParallelModel<M>,
    outcome: Result<RoutingStatistics, Error>,
    model_time: u128,
    rank: usize,
    size: usize,
    stream: Option<Failure>,
    token_shape: Seq<i32>,
    observed: bool,
    cache: CacheKind,
)
    requires
        (outcome is Ok && forward_failure(
            model,
            rank,
            size,
            stream,
            token_shape,
            observed,
            cache,
        ) is None) ==> model.cumulative_statistics.can_add(
            RoutingStatistics { model_time, ..outcome->Ok_0 },
        ),
    ensures
        ({
            let refusal = forward_failure(
                model,
                rank,
                size,
                stream,
                token_shape,
                observed,
                cache,
            );
            let after = if refusal is Some {
                model
            } else {
                model.ended(outcome, model_time)
            };
            &&& (outcome is Ok && refusal is None) ==> {
                &&& after.latest_statistics == (RoutingStatistics { model_time, ..outcome->Ok_0 })
                &&& after.cumulative_statistics == model.cumulative_statistics.plus(
                    after.latest_statistics,
                )
            }
            &&& (refusal is Some || outcome is Err) ==> {
                &&& after.latest_statistics == model.latest_statistics
                &&& after.cumulative_statistics == model.cumulative_statistics
            }
            &&& (token_shape.len() != 2 || rank != model.topology.global_rank || size
                != model.topology.world_size) ==> refusal is Some
        }),
{
}

/// The ordinary cache of an architecture always fits it.
pub proof fn ordinary_cache_fits(architecture: ExpertArchitecture)
    ensures
        cache_fits(architecture, ordinary_cache(architecture)),
{
}

/// Why a group does not belong to a topology, if it does not.
pub open spec fn group_failure(topology: ParallelTopology, rank: usize, size: usize) -> Option<
    Failure,
> {
    if rank != topology.global_rank || size != topology.world_size {
        Some(
            Failure::Parallel(
                "expert-parallel topology expects group rank "@ + crate::text::decimal(
                    topology.global_rank as nat,
                ) + "/"@ + crate::text::decimal(topology.world_size as nat) + " but received "@
                    + crate::text::decimal(rank as nat) + "/"@ + crate::text::decimal(size as nat),
            ),
        )
    } else {
        None
    }
}

/// Why a token input is refused, if it is.
pub open spec fn tokens_failure(shape: Seq<i32>) -> Option<Failure> {
    if shape.len() != 2 {
        Some(
            Failure::Parallel(
                "expert-parallel token input must be [batch, sequence], got "@
                    + crate::text::listed(shape),
            ),
        )
    } else {
        None
    }
}

/// The pass that an input of so many tokens belongs to.
pub open spec fn pass_of(tokens: i32) -> ExpertPass {
    if tokens > 1 {
        ExpertPass::Prefill
    } else {
        ExpertPass::Decode
    }
}

/// The first of two failures.
pub open spec fn or_else(first: Option<Failure>, second: Option<Failure>) -> Option<Failure> {
    match first {
        Some(failure) => Some(failure),
        None => second,
    }
}

/// Why a forward pass does not start, if it does not.
pub open spec fn forward_failure<M>(
    model: ExpertParallelModel<M>,
    rank: usize,
    size: usize,
    stream: Option<Failure>,
    shape: Seq<i32>,
    observed: bool,
    cache: CacheKind,
) -> Option<Failure> {
    or_else(
        group_failure(model.topology, rank, size),
        or_else(
            stream,
            or_else(
                tokens_failure(shape),
                if model.expert_cache is Some && observed {
                    Some(
                        Failure::UnsupportedArchitecture(
                            "detailed activation observation is unavailable for sparse expert-cached expert parallelism"@,
                        ),
                    )
                } else if !cache_fits(model.architecture, cache) || (model.expert_cache is None
                    && !runs_resident(model.architecture)) {
                    Some(Failure::Parallel("expert-parallel cache architecture mismatch"@))
                } else {
                    None
                },
            ),
        ),
    )
}

/// Why a target pass of embedded multi-token prediction does not start, if it does not.
pub open spec fn mtp_target_failure<M>(
    model: ExpertParallelModel<M>,
    rank: usize,
    size: usize,
    stream: Option<Failure>,
    shape: Seq<i32>,
) -> Option<Failure> {
    or_else(
        group_failure(model.topology, rank, size),
        or_else(
            stream,
            or_else(
                tokens_failure(shape),
                if model.expert_cache is None {
                    Some(
                        Failure::UnsupportedArchitecture(
                            "Qwen embedded MTP currently requires sparse expert-cached EP loading"@,
                        ),
                    )
                } else if !(model.architecture is QwenHybrid) {
                    Some(
                        Failure::UnsupportedArchitecture(
                            "embedded Qwen MTP requires a Qwen3-Next or Qwen3.5 EP model"@,
                        ),
                    )
                } else {
                    None
                },
            ),
        ),
    )
}

/// Says a failure in the words of the array runtime's exception.
pub open spec fn as_exception(failure: Option<Failure>) -> Option<Failure> {
    match failure {
        Some(failure) => Some(Failure::Exception(crate::error::message_of(failure))),
        None => None,
    }
}

/// Whether a model can generate with its embedded head.
pub open spec fn mtp_ready(architecture: ExpertArchitecture) -> bool {
    architecture matches ExpertArchitecture::QwenHybrid { mtp_layers } && mtp_layers > 0
}

/// Why embedded multi-token prediction does not start, if it does not.
pub open spec fn mtp_generation_failure<M>(
    model: ExpertParallelModel<M>,
    rank: usize,
    size: usize,
    sampling_rank: usize,
    name: Seq<char>,
    cache: CacheKind,
) -> Option<Failure> {
    or_else(
        as_exception(group_failure(model.topology, rank, size)),
        if sampling_rank >= size {
            Some(
                Failure::Exception(
                    "sampling rank "@ + crate::text::decimal(sampling_rank as nat)
                        + " is outside EP size "@ + crate::text::decimal(size as nat),
                ),
            )
        } else if !mtp_ready(model.architecture) {
            Some(
                Failure::Exception(
                    "embedded MTP runtime adapter is unavailable for EP model type "@ + name
                        + " (Unavailable)"@,
                ),
            )
        } else if cache != CacheKind::QwenHybrid {
            Some(Failure::Exception("embedded Qwen MTP requires a Qwen hybrid EP cache"@))
        } else {
            None
        },
    )
}

/// Why sampling on one rank does not start, if it does not.
pub open spec fn sampling_failure(
    topology: ParallelTopology,
    rank: usize,
    size: usize,
    sampling_rank: usize,
) -> Option<Failure> {
    or_else(
        group_failure(topology, rank, size),
        if sampling_rank >= size {
            Some(
                Failure::Parallel(
                    "sampling rank "@ + crate::text::decimal(sampling_rank as nat)
                        + " is outside EP size "@ + crate::text::decimal(size as nat),
                ),
            )
        } else {
            None
        },
    )
}

/// Rank identity of the blocks of an expert-parallel cache.
pub open spec fn cache_rank(topology: ParallelTopology) -> CacheRankIdentity {
    CacheRankIdentity {
        pipeline_rank: None,
        tensor_parallel_rank: None,
        expert_parallel_rank: Some(topology.expert_parallel_rank),
    }
}

/// The paged caches of so many layers.
pub open spec fn paged_layers(count: nat, max_size: Option<i32>, rank: CacheRankIdentity) -> Seq<
    PagedLayer,
> {
    Seq::new(
        count,
        |i: int| PagedLayer { layer: i as usize, max_size, sink_tokens: 0, rank },
    )
}

/// Why an architecture has no prompt-cache identity, if it has none.
pub open spec fn identity_failure(architecture: ExpertArchitecture) -> Option<Failure> {
    match architecture {
        ExpertArchitecture::DeepSeek { num_hidden_layers, .. } => if num_hidden_layers < 0 {
            Some(Failure::Parallel("invalid DeepSeek layer count"@))
        } else {
            None
        },
        ExpertArchitecture::GptOss { num_hidden_layers, .. } => if num_hidden_layers < 0 {
            Some(Failure::Parallel("invalid GPT-OSS layer count"@))
        } else {
            None
        },
        _ => Some(
            Failure::Parallel(
                "prompt-cache persistence is unsupported for this expert-parallel architecture"@,
            ),
        ),
    }
}

/// Whether an identity is the prompt-cache identity of an architecture on a rank.
pub open spec fn identifies(
    identity: PromptCacheModelIdentity,
    architecture: ExpertArchitecture,
    topology: ParallelTopology,
) -> bool {
    &&& identity.global_layer_start == 0
    &&& identity.global_layer_end == identity.layer_count
    &&& identity.sink_tokens == 0
    &&& identity.topology == (PromptCacheTopology {
        pipeline: None,
        tensor_parallel: None,
        expert_parallel: Some((topology.expert_parallel_size, topology.expert_parallel_rank)),
        expert_parallel_cache_replicated: true,
    })
    &&& match architecture {
        ExpertArchitecture::DeepSeek {
            model_type,
            architecture_fingerprint,
            num_hidden_layers,
            kv_lora_rank,
            qk_rope_head_dim,
        } => {
            &&& identity.model_family@ == "deepseek_v3"@
            &&& identity.effective_model_type@ == model_type@
            &&& identity.architecture_fingerprint@ == architecture_fingerprint@
            &&& identity.layer_count == num_hidden_layers
            &&& identity.sliding_window is None
            &&& identity.layer_layouts@ == Seq::new(
                num_hidden_layers as nat,
                |i: int|
                    PromptCacheLayerLayout::CompressedLatentRotary {
                        latent_dim: kv_lora_rank,
                        rotary_dim: qk_rope_head_dim,
                    },
            )
        },
        ExpertArchitecture::GptOss {
            model_type,
            architecture_fingerprint,
            num_hidden_layers,
            sliding_window,
            num_key_value_heads,
            head_dim,
        } => {
            &&& identity.model_family@ == "gpt_oss"@
            &&& identity.effective_model_type@ == model_type@
            &&& identity.architecture_fingerprint@ == architecture_fingerprint@
            &&& identity.layer_count == num_hidden_layers
            &&& identity.sliding_window == Some(sliding_window)
            &&& identity.layer_layouts@ == Seq::new(
                num_hidden_layers as nat,
                |i: int| PromptCacheLayerLayout::KeyValue { num_key_value_heads, head_dim },
            )
        },
        _ => false,
    }
}

/// Says a prompt-cache failure as a placement failure.
pub open spec fn as_parallel(failure: Option<crate::cache_residency::error::CacheFailure>) -> Option<
    Failure,
> {
    match failure {
        Some(failure) => Some(
            Failure::Parallel(crate::cache_residency::message::cache_message(failure)),
        ),
        None => None,
    }
}

/// The first field in which a descriptor contradicts a model, if there is one.
pub open spec fn contradiction(
    descriptor: PromptCacheDescriptor,
    architecture: ExpertArchitecture,
    topology: ParallelTopology,
) -> Option<crate::cache_residency::error::CacheFailure> {
    let (layers, window) = match architecture {
        ExpertArchitecture::DeepSeek { num_hidden_layers, .. } => (num_hidden_layers, None),
        ExpertArchitecture::GptOss { num_hidden_layers, sliding_window, .. } => (
            num_hidden_layers,
            Some(sliding_window),
        ),
        _ => (0i32, None),
    };
    if descriptor.model_family@ != family_of(architecture) {
        Some(crate::cache_residency::prompt::contradicted("model_family"@))
    } else if descriptor.effective_model_type@ != type_of(architecture) {
        Some(crate::cache_residency::prompt::contradicted("effective_model_type"@))
    } else if descriptor.architecture_fingerprint@ != fingerprint_of(architecture) {
        Some(crate::cache_residency::prompt::contradicted("architecture_fingerprint"@))
    } else if descriptor.layer_count != layers {
        Some(crate::cache_residency::prompt::contradicted("layer_count"@))
    } else if descriptor.global_layer_start != 0 {
        Some(crate::cache_residency::prompt::contradicted("global_layer_start"@))
    } else if descriptor.global_layer_end != layers {
        Some(crate::cache_residency::prompt::contradicted("global_layer_end"@))
    } else if descriptor.sliding_window != window {
        Some(crate::cache_residency::prompt::contradicted("sliding_window"@))
    } else if descriptor.sink_tokens != 0 {
        Some(crate::cache_residency::prompt::contradicted("sink_tokens"@))
    } else if descriptor.topology != (PromptCacheTopology {
        pipeline: None,
        tensor_parallel: None,
        expert_parallel: Some((topology.expert_parallel_size, topology.expert_parallel_rank)),
        expert_parallel_cache_replicated: true,
    }) {
        Some(crate::cache_residency::prompt::contradicted("topology"@))
    } else {
        None
    }
}

/// The effective model type of an architecture that has a prompt-cache identity.
pub open spec fn type_of(architecture: ExpertArchitecture) -> Seq<char> {
    match architecture {
        ExpertArchitecture::DeepSeek { model_type, .. } => model_type@,
        ExpertArchitecture::GptOss { model_type, .. } => model_type@,
        _ => Seq::empty(),
    }
}

/// The fingerprint of an architecture that has a prompt-cache identity.
pub open spec fn fingerprint_of(architecture: ExpertArchitecture) -> Seq<char> {
    match architecture {
        ExpertArchitecture::DeepSeek { architecture_fingerprint, .. } =>
            architecture_fingerprint@,
        ExpertArchitecture::GptOss { architecture_fingerprint, .. } => architecture_fingerprint@,
        _ => Seq::empty(),
    }
}

/// The family of an architecture that has a prompt-cache identity.
pub open spec fn family_of(architecture: ExpertArchitecture) -> Seq<char> {
    if architecture is DeepSeek {
        "deepseek_v3"@
    } else {
        "gpt_oss"@
    }
}

/// Where a rank keeps its prompt cache below a shared root.
pub open spec fn rank_directory(root: Seq<char>, rank: usize) -> Seq<char> {
    crate::cache_residency::shard::joined_path(
        root,
        "rank-"@ + crate::text::zero_padded(crate::text::decimal(rank as nat), 5),
    )
}

/// Ranks keep their prompt caches apart: different ranks have different directories.
pub proof fn rank_directories_differ(root: Seq<char>, left: usize, right: usize)
    requires
        rank_directory(root, left) == rank_directory(root, right),
    ensures
        left == right,
{
    let first = "rank-"@ + crate::text::zero_padded(crate::text::decimal(left as nat), 5);
    let second = "rank-"@ + crate::text::zero_padded(crate::text::decimal(right as nat), 5);
    assert(first =~= second) by {
        let joined = rank_directory(root, left);
        let other = rank_directory(root, right);
        assert(first =~= joined.skip(joined.len() - first.len()));
        assert(second =~= other.skip(other.len() - second.len()));
        assert(joined.len() - first.len() == other.len() - second.len());
    }
    let mark = "rank-"@.len() as int;
    assert(first.skip(mark) =~= crate::text::zero_padded(crate::text::decimal(left as nat), 5));
    assert(second.skip(mark) =~= crate::text::zero_padded(crate::text::decimal(right as nat), 5));
    crate::text::padded_numerals_differ(left as nat, right as nat, 5);
}

fn parallel_error(error: crate::cache_residency::error::CacheResidencyError) -> (mapped: Error)
    ensures
        Some(mapped@) == as_parallel(Some(error@)),
{
    Error::Parallel(error.message())
}

impl<M> ExpertParallelModel<M> {
    /// A loaded model before its first forward.
    pub fn new(
        topology: ParallelTopology,
        info: ExpertParallelInfo,
        architecture: ExpertArchitecture,
        expert_cache: Option<ExpertCache<M>>,
    ) -> (model: Self)
        ensures
            model == (ExpertParallelModel {
                topology,
                info,
                architecture,
                expert_cache,
                latest_statistics: RoutingStatistics::zero(),
                cumulative_statistics: RoutingStatistics::zero(),
            }),
    {
        ExpertParallelModel {
            topology,
            info,
            architecture,
            expert_cache,
            latest_statistics: RoutingStatistics::default(),
            cumulative_statistics: RoutingStatistics::default(),
        }
    }

    /// Returns placement, assignment, and memory diagnostics.
    pub fn info(&self) -> (info: &ExpertParallelInfo)
        ensures
            *info == self.info,
    {
        &self.info
    }

    /// Reports whether this EP target can perform embedded MTP generation.
    pub fn mtp_capability(&self) -> (capability: MtpCapability)
        ensures
            capability == (if mtp_ready(self.architecture) {
                MtpCapability::Ready { checkpoint: MtpCheckpointKind::Embedded }
            } else {
                MtpCapability::Unavailable
            }),
    {
        match &self.architecture {
            ExpertArchitecture::QwenHybrid { mtp_layers } => if *mtp_layers > 0 {
                MtpCapability::Ready { checkpoint: MtpCheckpointKind::Embedded }
            } else {
                MtpCapability::Unavailable
            },
            _ => MtpCapability::Unavailable,
        }
    }

    /// Layers of the embedded multi-token-prediction head.
    pub fn mtp_layer_count(&self) -> (count: usize)
        ensures
            count == (match self.architecture {
                ExpertArchitecture::QwenHybrid { mtp_layers } => mtp_layers,
                _ => 0,
            }),
    {
        match &self.architecture {
            ExpertArchitecture::QwenHybrid { mtp_layers } => *mtp_layers,
            _ => 0,
        }
    }

    /// Returns dynamic rank-owned expert residency when sparse caching is active.
    /// `residency` is what the manager of the cached experts reports.
    pub fn expert_cache_report(&self, residency: ResidencyReport) -> (report: Option<
        ExpertCacheReport,
    >)
        requires
            self.expert_cache matches Some(cache) ==> cache.wf()
                && crate::expert_cache::acquire::expert_bytes(cache.catalog@) <= u64::MAX,
        ensures
            report is Some <==> self.expert_cache is Some,
            report matches Some(report) ==> {
                let cache = self.expert_cache->0;
                &&& report.owned_experts == cache.catalog@.len()
                &&& report.owned_bytes == crate::expert_cache::acquire::expert_bytes(cache.catalog@)
                &&& report.host_resident_experts == crate::expert_cache::report::resident_units(
                    residency.units@,
                    true,
                )
                &&& report.device_resident_experts == crate::expert_cache::report::resident_units(
                    residency.units@,
                    false,
                )
                &&& report.host_resident_bytes == crate::expert_cache::report::resident_bytes(
                    residency.units@,
                    true,
                )
                &&& report.device_resident_bytes == crate::expert_cache::report::resident_bytes(
                    residency.units@,
                    false,
                )
                &&& report.peak_host_resident_bytes == residency.peak_host_bytes
                &&& report.peak_device_resident_bytes == residency.peak_device_bytes
                &&& report.prefill == cache.prefill
                &&& report.decode == cache.decode
                &&& report.prefill.adds_up()
                &&& report.decode.adds_up()
                &&& report.residency == residency
            },
    {
        match &self.expert_cache {
            Some(cache) => Some(cache.report(residency)),
            None => None,
        }
    }

    /// Allocates an empty architecture-appropriate replicated cache. `kept` is the cache
    /// that the architecture keeps itself.
    pub fn new_cache<R: Copy, C>(&self, kept: C) -> (cache: ExpertParallelCache<R, C>)
        ensures
            cache.representation() == ordinary_cache(self.architecture),
            match self.architecture {
                ExpertArchitecture::DeepSeek { .. } => cache == ExpertParallelCache::<
                    R,
                    C,
                >::DeepSeek(kept),
                ExpertArchitecture::Qwen3 { .. } => cache matches ExpertParallelCache::Qwen3(layers)
                    && layers@.len() == 0,
                ExpertArchitecture::GptOss { .. } => cache == ExpertParallelCache::<R, C>::GptOss(
                    kept,
                ),
                ExpertArchitecture::Inkling => cache == ExpertParallelCache::<R, C>::Inkling(kept),
                ExpertArchitecture::Lfm2 => cache == ExpertParallelCache::<R, C>::Lfm2(kept),
                ExpertArchitecture::NemotronH => cache == ExpertParallelCache::<R, C>::NemotronH(
                    kept,
                ),
                ExpertArchitecture::QwenHybrid { .. } => cache == ExpertParallelCache::<
                    R,
                    C,
                >::QwenHybrid(kept),
                ExpertArchitecture::Qwen3Vl => cache == ExpertParallelCache::<R, C>::Qwen3Vl(kept),
            },
    {
        match &self.architecture {
            ExpertArchitecture::DeepSeek { .. } => ExpertParallelCache::DeepSeek(kept),
            ExpertArchitecture::Qwen3 { .. } => ExpertParallelCache::Qwen3(Vec::new()),
            ExpertArchitecture::GptOss { .. } => ExpertParallelCache::GptOss(kept),
            ExpertArchitecture::Inkling => ExpertParallelCache::Inkling(kept),
            ExpertArchitecture::Lfm2 => ExpertParallelCache::Lfm2(kept),
            ExpertArchitecture::NemotronH => ExpertParallelCache::NemotronH(kept),
            ExpertArchitecture::QwenHybrid { .. } => ExpertParallelCache::QwenHybrid(kept),
            ExpertArchitecture::Qwen3Vl => ExpertParallelCache::Qwen3Vl(kept),
        }
    }

    fn rank_identity(&self) -> (rank: CacheRankIdentity)
        ensures
            rank == cache_rank(self.topology),
    {
        CacheRankIdentity {
            pipeline_rank: None,
            tensor_parallel_rank: None,
            expert_parallel_rank: Some(self.topology.expert_parallel_rank),
        }
    }

    fn plan_layers(&self, count: usize, max_size: Option<i32>) -> (layers: Vec<PagedLayer>)
        ensures
            layers@ == paged_layers(count as nat, max_size, cache_rank(self.topology)),
    {
        let rank = self.rank_identity();
        let mut layers: Vec<PagedLayer> = Vec::new();
        let mut layer: usize = 0;
        while layer < count
            invariant
                layer <= count,
                rank == cache_rank(self.topology),
                layers@ == paged_layers(layer as nat, max_size, rank),
            decreases count - layer,
        {
            layers.push(PagedLayer { layer, max_size, sink_tokens: 0, rank });
            layer = layer + 1;
            assert(layers@ =~= paged_layers(layer as nat, max_size, rank));
        }
        layers
    }

    /// Allocates replicated attention state under an explicit cache policy.
    ///
    /// DeepSeek compressed attention, GPT-OSS alternating attention, Qwen3 KV,
    /// and Inkling relative-position attention are supported. Inkling's
    /// convolution state remains resident; recurrent and multimodal state is
    /// rejected because it is not represented by paged KV blocks.
    pub fn new_cache_with_options(&self, policy: CacheResidencyPolicy, session_id: u64) -> (outcome:
        Result<CachePlan, Error>)
        ensures
            match policy {
                CacheResidencyPolicy::Device => outcome matches Ok(plan) && plan is Device,
                CacheResidencyPolicy::Paged(options) => match self.architecture {
                    ExpertArchitecture::DeepSeek { .. }
                    | ExpertArchitecture::GptOss { .. }
                    | ExpertArchitecture::Inkling => outcome matches Ok(
                        CachePlan::Managed { manager, rank },
                    ) && manager.is_new(options, session_id) && rank == cache_rank(
                        self.topology,
                    ),
                    ExpertArchitecture::Qwen3 { layers: count } => outcome matches Ok(
                        CachePlan::Layers { manager, layers },
                    ) && manager.is_new(options, session_id) && layers@ == paged_layers(
                        count as nat,
                        None,
                        cache_rank(self.topology),
                    ),
                    _ => crate::error::failed(outcome) == Some(
                        Failure::Parallel(
                            "paged cache residency is unsupported for this expert-parallel cache representation"@,
                        ),
                    ),
                },
            },
    {
        match policy {
            CacheResidencyPolicy::Device => Ok(CachePlan::Device),
            CacheResidencyPolicy::Paged(options) => match &self.architecture {
                ExpertArchitecture::DeepSeek { .. }
                | ExpertArchitecture::GptOss { .. }
                | ExpertArchitecture::Inkling => Ok(
                    CachePlan::Managed {
                        manager: CacheResidencyManager::new(options, session_id),
                        rank: self.rank_identity(),
                    },
                ),
                ExpertArchitecture::Qwen3 { layers } => {
                    let layers = self.plan_layers(*layers, None);
                    Ok(
                        CachePlan::Layers {
                            manager: CacheResidencyManager::new(options, session_id),
                            layers,
                        },
                    )
                },
                _ => Err(
                    Error::Parallel(
                        "paged cache residency is unsupported for this expert-parallel cache representation".to_owned(),
                    ),
                ),
            },
        }
    }

    /// Allocates a bounded Qwen3 sliding-window cache.
    pub fn new_qwen3_sliding_cache(
        &self,
        max_size: i32,
        options: PagedCacheOptions,
        session_id: u64,
    ) -> (outcome: Result<CachePlan, Error>)
        ensures
            if max_size <= 0 {
                crate::error::failed(outcome) == Some(
                    Failure::Parallel("Qwen3 sliding cache size must be positive"@),
                )
            } else {
                match self.architecture {
                    ExpertArchitecture::Qwen3 { layers: count } => outcome matches Ok(
                        CachePlan::Layers { manager, layers },
                    ) && manager.is_new(options, session_id) && layers@ == paged_layers(
                        count as nat,
                        Some(max_size),
                        cache_rank(self.topology),
                    ),
                    _ => crate::error::failed(outcome) == Some(
                        Failure::Parallel(
                            "sliding key/value caches are only available for Qwen3 expert parallelism"@,
                        ),
                    ),
                }
            },
    {
        if max_size <= 0 {
            return Err(Error::Parallel("Qwen3 sliding cache size must be positive".to_owned()));
        }
        match &self.architecture {
            ExpertArchitecture::Qwen3 { layers } => {
                let layers = self.plan_layers(*layers, Some(max_size));
                Ok(
                    CachePlan::Layers {
                        manager: CacheResidencyManager::new(options, session_id),
                        layers,
                    },
                )
            },
            _ => Err(
                Error::Parallel(
                    "sliding key/value caches are only available for Qwen3 expert parallelism".to_owned(),
                ),
            ),
        }
    }

    /// Returns the kept cache whose manager reports aggregate cache residency, if any.
    pub fn cache_residency_report<'a, R: Copy, C>(&self, cache: &'a ExpertParallelCache<R, C>) -> (kept:
        Option<&'a C>)
        ensures
            match *cache {
                ExpertParallelCache::DeepSeek(state) => kept == Some(&state),
                ExpertParallelCache::GptOss(state) => kept == Some(&state),
                ExpertParallelCache::Inkling(state) => kept == Some(&state),
                ExpertParallelCache::Qwen3Paged(layers) => is_first(kept, layers@),
                _ => kept is None,
            },
    {
        match cache {
            ExpertParallelCache::DeepSeek(state) => Some(state),
            ExpertParallelCache::GptOss(state) => Some(state),
            ExpertParallelCache::Inkling(state) => Some(state),
            ExpertParallelCache::Qwen3Paged(layers) => first_layer(layers),
            _ => None,
        }
    }

    /// Checks the identity of a descriptor against this model.
    fn check_identity(&self, descriptor: &PromptCacheDescriptor) -> (outcome: Result<
        PromptCacheModelIdentity,
        Error,
    >)
        ensures
            crate::error::failed(outcome) == self.descriptor_failure(*descriptor),
            outcome matches Ok(identity) ==> identifies(
                identity,
                self.architecture,
                self.topology,
            ),
    {
        let identity = match self.prompt_cache_model_identity() {
            Ok(identity) => identity,
            Err(error) => {
                return Err(error);
            },
        };
        match validate_prompt_cache_model_identity(descriptor, &identity) {
            Ok(_) => Ok(identity),
            Err(error) => Err(parallel_error(error)),
        }
    }

    /// Why a descriptor does not belong to this model, if it does not.
    pub open spec fn descriptor_failure(self, descriptor: PromptCacheDescriptor) -> Option<
        Failure,
    > {
        or_else(
            identity_failure(self.architecture),
            as_parallel(contradiction(descriptor, self.architecture, self.topology)),
        )
    }

    /// Starts persisting this rank's replicated paged attention prefix below a shared
    /// root, and answers the rank's directory.
    pub fn save_prompt_cache(
        &self,
        cache: CacheKind,
        root: &str,
        descriptor: &PromptCacheDescriptor,
    ) -> (outcome: Result<String, Error>)
        ensures
            crate::error::failed(outcome) == or_else(
                self.descriptor_failure(*descriptor),
                if cache == CacheKind::DeepSeek || cache == CacheKind::GptOss {
                    None
                } else {
                    Some(
                        Failure::Parallel(
                            "expert-parallel prompt persistence requires a supported paged attention cache"@,
                        ),
                    )
                },
            ),
            outcome matches Ok(directory) ==> directory@ == rank_directory(
                root@,
                self.topology.global_rank,
            ),
    {
        match self.check_identity(descriptor) {
            Ok(_) => {},
            Err(error) => {
                return Err(error);
            },
        }
        let directory = self.prompt_cache_rank_directory(root);
        match cache {
            CacheKind::DeepSeek | CacheKind::GptOss => Ok(directory),
            _ => Err(
                Error::Parallel(
                    "expert-parallel prompt persistence requires a supported paged attention cache".to_owned(),
                ),
            ),
        }
    }

    /// Opens this rank's compatible replicated prefix without eager array loading. The
    /// manifest has been validated, and each of its shards has been mapped or not.
    pub fn load_prompt_cache(
        &self,
        root: &str,
        expected: &PromptCacheDescriptor,
        manifest: &PromptCacheManifest,
        prefix_token_ids: &[u32],
        options: PagedCacheOptions,
        session_id: u64,
        mappings: &Vec<ShardMapping>,
    ) -> (outcome: Result<(CacheResidencyManager, CacheRankIdentity), Error>)
        requires
            mappings@.len() == manifest.blocks@.len(),
            crate::cache_residency::open::entries_fit(manifest.blocks@),
            forall|i: int|
                0 <= i < manifest.blocks@.len() ==> i64::MIN <= (#[trigger] manifest.blocks@[i]).end
                    - manifest.blocks@[i].start <= i64::MAX,
        ensures
            self.descriptor_failure(*expected) is Some ==> crate::error::failed(outcome)
                == self.descriptor_failure(*expected),
            self.descriptor_failure(*expected) is None ==> exists|identity: PromptCacheModelIdentity|
                #[trigger] identifies(identity, self.architecture, self.topology)
                    && crate::error::failed(outcome) == as_parallel(
                    crate::cache_residency::open::open_failure(
                        root@,
                        *expected,
                        identity,
                        *manifest,
                        prefix_token_ids@,
                        options@.block_size_tokens,
                        session_id,
                        mappings@,
                    ),
                ),
            outcome matches Ok((manager, rank)) ==> {
                &&& rank == cache_rank(self.topology)
                &&& manager.wf()
                &&& manager.fits()
                &&& crate::cache_residency::open::is_opened(
                    manager,
                    root@,
                    *manifest,
                    options,
                    session_id,
                )
            },
    {
        let identity = match self.check_identity(expected) {
            Ok(identity) => identity,
            Err(error) => {
                return Err(error);
            },
        };
        match open_prompt_cache(
            root,
            expected,
            &identity,
            manifest,
            prefix_token_ids,
            options,
            session_id,
            mappings,
        ) {
            Ok(manager) => Ok((manager, self.rank_identity())),
            Err(error) => Err(parallel_error(error)),
        }
    }

    /// Where this rank keeps its prompt cache below a shared root.
    pub fn prompt_cache_rank_directory(&self, root: &str) -> (directory: String)
        ensures
            directory@ == rank_directory(root@, self.topology.global_rank),
    {
        let mut name = "rank-".to_owned();
        name.append(
            padded_text(usize_text(self.topology.global_rank).as_str(), 5).as_str(),
        );
        join_path(root, name.as_str())
    }

    /// Returns the canonical cache-relevant architecture identity for this rank.
    pub fn prompt_cache_architecture_fingerprint(&self) -> (outcome: Result<String, Error>)
        ensures
            crate::error::failed(outcome) == identity_failure(self.architecture),
            outcome matches Ok(fingerprint) ==> fingerprint@ == fingerprint_of(self.architecture),
    {
        match self.prompt_cache_model_identity() {
            Ok(identity) => Ok(identity.architecture_fingerprint),
            Err(error) => Err(error),
        }
    }

    /// Returns what a prompt cache of this model has to agree with.
    pub fn prompt_cache_model_identity(&self) -> (outcome: Result<PromptCacheModelIdentity, Error>)
        ensures
            crate::error::failed(outcome) == identity_failure(self.architecture),
            outcome matches Ok(identity) ==> identifies(
                identity,
                self.architecture,
                self.topology,
            ),
    {
        let topology = PromptCacheTopology {
            pipeline: None,
            tensor_parallel: None,
            expert_parallel: Some(
                (self.topology.expert_parallel_size, self.topology.expert_parallel_rank),
            ),
            expert_parallel_cache_replicated: true,
        };
        match &self.architecture {
            ExpertArchitecture::DeepSeek {
                model_type,
                architecture_fingerprint,
                num_hidden_layers,
                kv_lora_rank,
                qk_rope_head_dim,
            } => {
                if *num_hidden_layers < 0 {
                    return Err(Error::Parallel("invalid DeepSeek layer count".to_owned()));
                }
                let layer_count: usize = *num_hidden_layers as usize;
                Ok(
                    PromptCacheModelIdentity {
                        model_family: "deepseek_v3".to_owned(),
                        effective_model_type: model_type.clone(),
                        architecture_fingerprint: architecture_fingerprint.clone(),
                        layer_count,
                        global_layer_start: 0,
                        global_layer_end: layer_count,
                        sliding_window: None,
                        sink_tokens: 0,
                        topology,
                        layer_layouts: PromptCacheModelIdentity::compressed_layouts(
                            layer_count,
                            *kv_lora_rank,
                            *qk_rope_head_dim,
                        ),
                    },
                )
            },
            ExpertArchitecture::GptOss {
                model_type,
                architecture_fingerprint,
                num_hidden_layers,
                sliding_window,
                num_key_value_heads,
                head_dim,
            } => {
                if *num_hidden_layers < 0 {
                    return Err(Error::Parallel("invalid GPT-OSS layer count".to_owned()));
                }
                let layer_count: usize = *num_hidden_layers as usize;
                Ok(
                    PromptCacheModelIdentity {
                        model_family: "gpt_oss".to_owned(),
                        effective_model_type: model_type.clone(),
                        architecture_fingerprint: architecture_fingerprint.clone(),
                        layer_count,
                        global_layer_start: 0,
                        global_layer_end: layer_count,
                        sliding_window: Some(*sliding_window),
                        sink_tokens: 0,
                        topology,
                        layer_layouts: PromptCacheModelIdentity::key_value_layouts(
                            layer_count,
                            *num_key_value_heads,
                            *head_dim,
                        ),
                    },
                )
            },
            _ => Err(
                Error::Parallel(
                    "prompt-cache persistence is unsupported for this expert-parallel architecture".to_owned(),
                ),
            ),
        }
    }

    /// Counters from the most recent complete model forward.
    pub fn latest_routing_statistics(&self) -> (statistics: &RoutingStatistics)
        ensures
            *statistics == self.latest_statistics,
    {
        &self.latest_statistics
    }

    /// Counters accumulated across all forwards.
    pub fn cumulative_routing_statistics(&self) -> (statistics: &RoutingStatistics)
        ensures
            *statistics == self.cumulative_statistics,
    {
        &self.cumulative_statistics
    }

    /// Checks that a group is the one that this model was loaded for.
    pub fn validate_group(&self, rank: usize, size: usize) -> (outcome: Result<(), Error>)
        ensures
            crate::error::failed(outcome) == group_failure(self.topology, rank, size),
    {
        if rank != self.topology.global_rank || size != self.topology.world_size {
            let mut text = "expert-parallel topology expects group rank ".to_owned();
            text.append(usize_text(self.topology.global_rank).as_str());
            text.append("/");
            text.append(usize_text(self.topology.world_size).as_str());
            text.append(" but received ");
            text.append(usize_text(rank).as_str());
            text.append("/");
            text.append(usize_text(size).as_str());
            return Err(Error::Parallel(text));
        }
        Ok(())
    }

    /// The checks that every forward pass makes: the group, the execution stream, whose
    /// check gave `stream`, and the shape of the tokens.
    fn check_inputs(
        &self,
        rank: usize,
        size: usize,
        stream: Result<(), Error>,
        token_shape: &Vec<i32>,
    ) -> (outcome: Result<ExpertPass, Error>)
        ensures
            crate::error::failed(outcome) == or_else(
                group_failure(self.topology, rank, size),
                or_else(crate::error::failed(stream), tokens_failure(token_shape@)),
            ),
            outcome matches Ok(pass) ==> pass == pass_of(token_shape@[1]),
    {
        match self.validate_group(rank, size) {
            Ok(_) => {},
            Err(error) => {
                return Err(error);
            },
        }
        match stream {
            Ok(_) => {},
            Err(error) => {
                return Err(error);
            },
        }
        if token_shape.len() != 2 {
            let mut text = "expert-parallel token input must be [batch, sequence], got ".to_owned();
            text.append(list_text(token_shape).as_str());
            return Err(Error::Parallel(text));
        }
        if token_shape[1] > 1 {
            Ok(ExpertPass::Prefill)
        } else {
            Ok(ExpertPass::Decode)
        }
    }

    fn fits(&self, cache: CacheKind) -> (fits: bool)
        ensures
            fits == cache_fits(self.architecture, cache),
    {
        match &self.architecture {
            ExpertArchitecture::DeepSeek { .. } => cache == CacheKind::DeepSeek,
            ExpertArchitecture::Qwen3 { .. } => cache == CacheKind::Qwen3 || cache
                == CacheKind::Qwen3Sliding || cache == CacheKind::Qwen3Paged,
            ExpertArchitecture::GptOss { .. } => cache == CacheKind::GptOss,
            ExpertArchitecture::Inkling => cache == CacheKind::Inkling,
            ExpertArchitecture::Lfm2 => cache == CacheKind::Lfm2,
            ExpertArchitecture::NemotronH => cache == CacheKind::NemotronH,
            ExpertArchitecture::QwenHybrid { .. } => cache == CacheKind::QwenHybrid,
            ExpertArchitecture::Qwen3Vl => cache == CacheKind::Qwen3Vl,
        }
    }

    /// Starts prefill or decode with identical input tokens on every EP rank: checks the
    /// request, and decides where the experts come from. `stream` is what checking the
    /// execution stream gave.
    pub fn begin_forward(
        &self,
        rank: usize,
        size: usize,
        stream: Result<(), Error>,
        token_shape: &Vec<i32>,
        observed: bool,
        cache: CacheKind,
    ) -> (outcome: Result<ForwardPlan, Error>)
        ensures
            crate::error::failed(outcome) == forward_failure(
                *self,
                rank,
                size,
                crate::error::failed(stream),
                token_shape@,
                observed,
                cache,
            ),
            outcome matches Ok(plan) ==> plan == (if self.expert_cache is Some {
                ForwardPlan::Cached(pass_of(token_shape@[1]))
            } else {
                ForwardPlan::Resident
            }),
    {
        let pass = match self.check_inputs(rank, size, stream, token_shape) {
            Ok(pass) => pass,
            Err(error) => {
                return Err(error);
            },
        };
        let cached = self.expert_cache.is_some();
        if cached && observed {
            return Err(
                Error::UnsupportedArchitecture(
                    "detailed activation observation is unavailable for sparse expert-cached expert parallelism".to_owned(),
                ),
            );
        }
        let resident = match &self.architecture {
            ExpertArchitecture::DeepSeek { .. } | ExpertArchitecture::Qwen3 { .. } => true,
            _ => false,
        };
        if !self.fits(cache) || (!cached && !resident) {
            return Err(Error::Parallel("expert-parallel cache architecture mismatch".to_owned()));
        }
        if cached {
            Ok(ForwardPlan::Cached(pass))
        } else {
            Ok(ForwardPlan::Resident)
        }
    }

    /// The model after a forward pass with these counters that took so long.
    pub open spec fn forwarded(self, statistics: RoutingStatistics, model_time: u128) -> Self {
        let finished = RoutingStatistics { model_time, ..statistics };
        ExpertParallelModel::<M> {
            latest_statistics: finished,
            cumulative_statistics: self.cumulative_statistics.plus(finished),
            ..self
        }
    }

    /// The model after a forward pass that gave its counters or failed.
    pub open spec fn ended(self, outcome: Result<RoutingStatistics, Error>, model_time: u128) -> Self {
        match outcome {
            Ok(statistics) => self.forwarded(statistics, model_time),
            Err(_) => self,
        }
    }

    /// Ends a forward pass: its counters, with the time that the whole pass took, become
    /// the latest ones and are added to those of all passes.
    pub fn finish_forward(&mut self, statistics: RoutingStatistics, model_time: u128)
        requires
            old(self).cumulative_statistics.can_add(
                RoutingStatistics { model_time, ..statistics },
            ),
        ensures
            *final(self) == old(self).forwarded(statistics, model_time),
    {
        let mut finished = statistics;
        finished.model_time = model_time;
        self.latest_statistics = finished;
        self.cumulative_statistics.accumulate(&finished);
    }

    /// Ends a forward pass that gave its counters or failed. One that failed is not counted.
    pub fn end_forward(&mut self, outcome: Result<RoutingStatistics, Error>, model_time: u128) -> (
        ended: Result<(), Error>)
        requires
            outcome matches Ok(statistics) ==> old(self).cumulative_statistics.can_add(
                RoutingStatistics { model_time, ..statistics },
            ),
        ensures
            *final(self) == old(self).ended(outcome, model_time),
            ended == (match outcome {
                Ok(_) => Ok(()),
                Err(error) => Err::<(), Error>(error),
            }),
    {
        match outcome {
            Ok(statistics) => {
                self.finish_forward(statistics, model_time);
                Ok(())
            },
            Err(error) => Err(error),
        }
    }

    /// Starts a target pass of embedded multi-token prediction.
    pub fn begin_mtp_target(
        &self,
        rank: usize,
        size: usize,
        stream: Result<(), Error>,
        token_shape: &Vec<i32>,
    ) -> (outcome: Result<ExpertPass, Error>)
        ensures
            crate::error::failed(outcome) == mtp_target_failure(
                *self,
                rank,
                size,
                crate::error::failed(stream),
                token_shape@,
            ),
            outcome matches Ok(pass) ==> pass == pass_of(token_shape@[1]),
    {
        let pass = match self.check_inputs(rank, size, stream, token_shape) {
            Ok(pass) => pass,
            Err(error) => {
                return Err(error);
            },
        };
        if self.expert_cache.is_none() {
            return Err(
                Error::UnsupportedArchitecture(
                    "Qwen embedded MTP currently requires sparse expert-cached EP loading".to_owned(),
                ),
            );
        }
        match &self.architecture {
            ExpertArchitecture::QwenHybrid { .. } => Ok(pass),
            _ => Err(
                Error::UnsupportedArchitecture(
                    "embedded Qwen MTP requires a Qwen3-Next or Qwen3.5 EP model".to_owned(),
                ),
            ),
        }
    }

    /// Checks that the embedded head can draft.
    pub fn check_mtp_drafter(&self) -> (outcome: Result<(), Error>)
        ensures
            crate::error::failed(outcome) == (if self.architecture is QwenHybrid {
                None
            } else {
                Some(
                    Failure::Exception(
                        "embedded Qwen MTP requires a Qwen3-Next or Qwen3.5 EP model"@,
                    ),
                )
            }),
    {
        match &self.architecture {
            ExpertArchitecture::QwenHybrid { .. } => Ok(()),
            _ => Err(
                Error::Exception(
                    "embedded Qwen MTP requires a Qwen3-Next or Qwen3.5 EP model".to_owned(),
                ),
            ),
        }
    }

    /// Starts generating with the embedded head, and answers whether this rank reports
    /// committed tokens. `model_type_name` is how messages name the architecture.
    pub fn begin_embedded_mtp(
        &self,
        rank: usize,
        size: usize,
        sampling_rank: usize,
        model_type_name: &str,
        cache: CacheKind,
    ) -> (outcome: Result<bool, Error>)
        ensures
            crate::error::failed(outcome) == mtp_generation_failure(
                *self,
                rank,
                size,
                sampling_rank,
                model_type_name@,
                cache,
            ),
            outcome matches Ok(reports) ==> reports == (rank == sampling_rank),
    {
        match self.validate_group(rank, size) {
            Ok(_) => {},
            Err(error) => {
                return Err(Error::Exception(error.message()));
            },
        }
        if sampling_rank >= size {
            return Err(Error::Exception(outside_group(sampling_rank, size)));
        }
        match self.mtp_capability() {
            MtpCapability::Ready { checkpoint: MtpCheckpointKind::Embedded } => {},
            MtpCapability::Unavailable => {
                let mut text =
                    "embedded MTP runtime adapter is unavailable for EP model type ".to_owned();
                text.append(model_type_name);
                text.append(" (Unavailable)");
                return Err(Error::Exception(text));
            },
        }
        if cache != CacheKind::QwenHybrid {
            return Err(
                Error::Exception("embedded Qwen MTP requires a Qwen hybrid EP cache".to_owned()),
            );
        }
        Ok(rank == sampling_rank)
    }

    /// Starts sampling on one rank, and answers whether that is this rank.
    pub fn begin_sampling(&self, rank: usize, size: usize, sampling_rank: usize) -> (outcome: Result<
        bool,
        Error,
    >)
        ensures
            crate::error::failed(outcome) == sampling_failure(
                self.topology,
                rank,
                size,
                sampling_rank,
            ),
            outcome matches Ok(samples) ==> samples == (rank == sampling_rank),
    {
        match self.validate_group(rank, size) {
            Ok(_) => {},
            Err(error) => {
                return Err(error);
            },
        }
        if sampling_rank >= size {
            return Err(Error::Parallel(outside_group(sampling_rank, size)));
        }
        Ok(rank == sampling_rank)
    }
}

/// Whether something is the cache of the first layer that has one.
pub open spec fn is_first<C>(kept: Option<&C>, layers: Seq<Option<C>>) -> bool {
    match kept {
        Some(state) => exists|i: int|
            0 <= i < layers.len() && (#[trigger] layers[i]) == Some(*state) && forall|j: int|
                0 <= j < i ==> (#[trigger] layers[j]) is None,
        None => !crate::expert_parallel::caches::any_layer(layers),
    }
}

fn first_layer<C>(layers: &Vec<Option<C>>) -> (kept: Option<&C>)
    ensures
        is_first(kept, layers@),
{
    let mut index: usize = 0;
    while index < layers.len()
        invariant
            index <= layers@.len(),
            forall|i: int| 0 <= i < index ==> (#[trigger] layers@[i]) is None,
        decreases layers@.len() - index,
    {
        match &layers[index] {
            Some(state) => {
                assert(layers@[index as int] == Some(*state));
                return Some(state);
            },
            None => {},
        }
        index = index + 1;
    }
    None
}

fn outside_group(sampling_rank: usize, size: usize) -> (text: String)
    ensures
        text@ == "sampling rank "@ + crate::text::decimal(sampling_rank as nat)
            + " is outside EP size "@ + crate::text::decimal(size as nat),
{
    let mut text = "sampling rank ".to_owned();
    text.append(usize_text(sampling_rank).as_str());
    text.append(" is outside EP size ");
    text.append(usize_text(size).as_str());
    text
}

/// A group is accepted exactly where it has the rank and the size of the topology.
pub proof fn accepted_groups_are_the_topologys(topology: ParallelTopology, rank: usize, size: usize)
    ensures
        group_failure(topology, rank, size) is None <==> rank == topology.global_rank && size
            == topology.world_size,
{
}

/// A forward pass starts exactly where the group is the model's, the stream is valid, the
/// tokens form a matrix, nothing observes a cached model and the cache is of the model's
/// own architecture; only DeepSeek and Qwen3 run with resident experts.
pub proof fn forward_passes_start_with_their_own_cache<M>(
    model: ExpertParallelModel<M>,
    rank: usize,
    size: usize,
    stream: Option<Failure>,
    shape: Seq<i32>,
    observed: bool,
    cache: CacheKind,
)
    ensures
        forward_failure(model, rank, size, stream, shape, observed, cache) is None <==> {
            &&& rank == model.topology.global_rank
            &&& size == model.topology.world_size
            &&& stream is None
            &&& shape.len() == 2
            &&& !(observed && model.expert_cache is Some)
            &&& match cache {
                CacheKind::DeepSeek => model.architecture is DeepSeek,
                CacheKind::Qwen3 => model.architecture is Qwen3,
                CacheKind::Qwen3Sliding => model.architecture is Qwen3,
                CacheKind::Qwen3Paged => model.architecture is Qwen3,
                CacheKind::GptOss => model.architecture is GptOss && model.expert_cache is Some,
                CacheKind::Inkling => model.architecture is Inkling && model.expert_cache is Some,
                CacheKind::Lfm2 => model.architecture is Lfm2 && model.expert_cache is Some,
                CacheKind::NemotronH => model.architecture is NemotronH
                    && model.expert_cache is Some,
                CacheKind::QwenHybrid => model.architecture is QwenHybrid
                    && model.expert_cache is Some,
                CacheKind::Qwen3Vl => model.architecture is Qwen3Vl && model.expert_cache is Some,
            }
        },
        rank == model.topology.global_rank && size == model.topology.world_size && stream is Some
            ==> forward_failure(model, rank, size, stream, shape, observed, cache) == stream,
{
}

/// A target pass of embedded multi-token prediction starts exactly on a Qwen hybrid model
/// with cached experts, in its own group, with a valid stream and a matrix of tokens.
pub proof fn target_passes_need_a_cached_hybrid<M>(
    model: ExpertParallelModel<M>,
    rank: usize,
    size: usize,
    stream: Option<Failure>,
    shape: Seq<i32>,
)
    ensures
        mtp_target_failure(model, rank, size, stream, shape) is None <==> {
            &&& rank == model.topology.global_rank
            &&& size == model.topology.world_size
            &&& stream is None
            &&& shape.len() == 2
            &&& model.expert_cache is Some
            &&& model.architecture is QwenHybrid
        },
{
}

/// Embedded multi-token prediction starts exactly in the model's own group, with a
/// sampling rank of that group, on a Qwen hybrid model with a prediction layer and with a
/// hybrid cache.
pub proof fn embedded_prediction_needs_prediction_layers<M>(
    model: ExpertParallelModel<M>,
    rank: usize,
    size: usize,
    sampling_rank: usize,
    name: Seq<char>,
    cache: CacheKind,
)
    ensures
        mtp_generation_failure(model, rank, size, sampling_rank, name, cache) is None <==> {
            &&& rank == model.topology.global_rank
            &&& size == model.topology.world_size
            &&& sampling_rank < size
            &&& model.architecture is QwenHybrid
            &&& model.architecture->mtp_layers > 0
            &&& cache is QwenHybrid
        },
{
}

/// Sampling starts exactly in the model's own group and on one of its ranks.
pub proof fn sampling_needs_a_rank_of_the_group(
    topology: ParallelTopology,
    rank: usize,
    size: usize,
    sampling_rank: usize,
)
    ensures
        sampling_failure(topology, rank, size, sampling_rank) is None <==> rank
            == topology.global_rank && size == topology.world_size && sampling_rank
            < topology.world_size,
{
}

/// Inputs of several tokens are prefill, and those of one token are decoding.
pub proof fn single_tokens_are_decoded(tokens: i32)
    ensures
        tokens >= 2 ==> pass_of(tokens) is Prefill,
        tokens == 1 ==> pass_of(tokens) is Decode,
{
}

/// Every layer of a paged cache has its own number, and all share the window and the
/// rank; no tokens are kept in front.
pub proof fn paged_layers_are_numbered(
    count: nat,
    max_size: Option<i32>,
    rank: CacheRankIdentity,
    i: int,
)
    requires
        0 <= i < count <= usize::MAX,
    ensures
        paged_layers(count, max_size, rank).len() == count,
        paged_layers(count, max_size, rank)[i].layer == i,
        paged_layers(count, max_size, rank)[i].max_size == max_size,
        paged_layers(count, max_size, rank)[i].sink_tokens == 0,
        paged_layers(count, max_size, rank)[i].rank == rank,
{
}

/// Blocks of two ranks never share an identity: the rank stands in it, and nothing else
/// of the placement does.
pub proof fn ranks_have_their_own_blocks(left: ParallelTopology, right: ParallelTopology)
    ensures
        left.expert_parallel_rank != right.expert_parallel_rank ==> cache_rank(left) != cache_rank(
            right,
        ),
        left.expert_parallel_rank == right.expert_parallel_rank ==> cache_rank(left) == cache_rank(
            right,
        ),
        cache_rank(left).pipeline_rank is None,
        cache_rank(left).tensor_parallel_rank is None,
{
}

/// Prompt caches are kept for DeepSeek and GPT-OSS models with a layer count, and for no
/// other architecture.
pub proof fn prompt_caches_are_kept_for(architecture: ExpertArchitecture)
    ensures
        identity_failure(architecture) is None <==> (architecture is DeepSeek
            && architecture->DeepSeek_num_hidden_layers >= 0) || (architecture is GptOss
            && architecture->GptOss_num_hidden_layers >= 0),
{
}

/// A descriptor that contradicts nothing says what the model's own identity says, field
/// by field.
pub proof fn accepted_descriptors_agree_with_the_identity(
    descriptor: PromptCacheDescriptor,
    identity: PromptCacheModelIdentity,
    architecture: ExpertArchitecture,
    topology: ParallelTopology,
)
    requires
        identity_failure(architecture) is None,
        identifies(identity, architecture, topology),
    ensures
        contradiction(descriptor, architecture, topology) is None <==> {
            &&& descriptor.model_family@ == identity.model_family@
            &&& descriptor.effective_model_type@ == identity.effective_model_type@
            &&& descriptor.architecture_fingerprint@ == identity.architecture_fingerprint@
            &&& descriptor.layer_count == identity.layer_count
            &&& descriptor.global_layer_start == identity.global_layer_start
            &&& descriptor.global_layer_end == identity.global_layer_end
            &&& descriptor.sliding_window == identity.sliding_window
            &&& descriptor.sink_tokens == identity.sink_tokens
            &&& descriptor.topology == identity.topology
        },
{
}

/// The identity of a model says which ranks share its cache: this rank of its group, and
/// no pipeline or tensor-parallel rank. Every layer has the layout of the architecture.
pub proof fn identities_name_the_rank(
    identity: PromptCacheModelIdentity,
    architecture: ExpertArchitecture,
    topology: ParallelTopology,
    layer: int,
)
    requires
        identity_failure(architecture) is None,
        identifies(identity, architecture, topology),
    ensures
        identity.topology.expert_parallel == Some(
            (topology.expert_parallel_size, topology.expert_parallel_rank),
        ),
        identity.topology.pipeline is None,
        identity.topology.tensor_parallel is None,
        identity.topology.expert_parallel_cache_replicated,
        identity.layer_layouts@.len() == identity.layer_count,
        0 <= layer < identity.layer_count ==> match architecture {
            ExpertArchitecture::DeepSeek { kv_lora_rank, qk_rope_head_dim, .. } => {
                &&& identity.layer_layouts@[layer] is CompressedLatentRotary
                &&& identity.layer_layouts@[layer]->latent_dim == kv_lora_rank
                &&& identity.layer_layouts@[layer]->rotary_dim == qk_rope_head_dim
                &&& identity.sliding_window is None
            },
            ExpertArchitecture::GptOss { num_key_value_heads, head_dim, sliding_window, .. } => {
                &&& identity.layer_layouts@[layer] is KeyValue
                &&& identity.layer_layouts@[layer]->KeyValue_num_key_value_heads
                    == num_key_value_heads
                &&& identity.layer_layouts@[layer]->KeyValue_head_dim == head_dim
                &&& identity.sliding_window == Some(sliding_window)
            },
            _ => true,
        },
{
}

/// The cache that is kept for a model is that of the first layer that has one; there is
/// none exactly where no layer has one.
pub proof fn the_first_cached_layer_is_kept<C>(kept: Option<&C>, layers: Seq<Option<C>>, at: int)
    requires
        is_first(kept, layers),
        0 <= at < layers.len(),
        layers[at] is Some,
        forall|j: int| 0 <= j < at ==> (#[trigger] layers[j]) is None,
    ensures
        kept is Some,
        *kept->Some_0 == layers[at]->Some_0,
{
}

/// A failed pass changes nothing, and a finished one replaces the latest counters and
/// adds them to those of all passes.
pub proof fn failed_passes_are_not_counted<M>(
    model: ExpertParallelModel<M>,
    outcome: Result<RoutingStatistics, Error>,
    model_time: u128,
)
    ensures
        outcome is Err ==> model.ended(outcome, model_time) == model,
        outcome is Ok ==> {
            let after = model.ended(outcome, model_time);
            &&& after.latest_statistics.model_time == model_time
            &&& after.latest_statistics.total_routes == outcome->Ok_0.total_routes
            &&& after.latest_statistics.local_routes == outcome->Ok_0.local_routes
            &&& after.latest_statistics.expert_time == outcome->Ok_0.expert_time
            &&& after.cumulative_statistics == model.cumulative_statistics.plus(
                after.latest_statistics,
            )
            &&& after.topology == model.topology
            &&& after.architecture == model.architecture
        },
{
}

/// A new cache is one that a forward pass of its model takes.
pub proof fn new_caches_are_taken<M, R: Copy, C>(
    model: ExpertParallelModel<M>,
    kept: C,
    cache: ExpertParallelCache<R, C>,
    kind: CacheKind,
    rank: usize,
    size: usize,
    shape: Seq<i32>,
)
    requires
        call_ensures(ExpertParallelModel::<M>::new_cache::<R, C>, (&model, kept), cache),
        call_ensures(ExpertParallelCache::<R, C>::kind, (&cache,), kind),
        rank == model.topology.global_rank,
        size == model.topology.world_size,
        shape.len() == 2,
        model.expert_cache is Some || model.architecture is DeepSeek || model.architecture is Qwen3,
    ensures
        forward_failure(model, rank, size, None, shape, false, kind) is None,
{
}

/// Paged caches are made for DeepSeek, GPT-OSS, Inkling and Qwen3 models, each with an
/// empty manager of its own; a sliding window needs a Qwen3 model and a size.
pub proof fn paged_caches_start_empty<M>(
    model: ExpertParallelModel<M>,
    options: PagedCacheOptions,
    session_id: u64,
    paged: Result<CachePlan, Error>,
    max_size: i32,
    sliding: Result<CachePlan, Error>,
    layer: int,
)
    requires
        call_ensures(
            ExpertParallelModel::<M>::new_cache_with_options,
            (&model, CacheResidencyPolicy::Paged(options), session_id),
            paged,
        ),
        call_ensures(
            ExpertParallelModel::<M>::new_qwen3_sliding_cache,
            (&model, max_size, options, session_id),
            sliding,
        ),
    ensures
        paged is Ok <==> model.architecture is DeepSeek || model.architecture is GptOss
            || model.architecture is Inkling || model.architecture is Qwen3,
        sliding is Ok <==> max_size >= 1 && model.architecture is Qwen3,
        paged matches Ok(CachePlan::Managed { manager, rank }) ==> manager.blocks@.len() == 0
            && manager.session_id == session_id && rank.expert_parallel_rank == Some(
            model.topology.expert_parallel_rank,
        ),
        model.architecture is Qwen3 && paged is Ok ==> {
            &&& paged->Ok_0 is Layers
            &&& paged->Ok_0->layers@.len() == model.architecture->Qwen3_layers
            &&& 0 <= layer < model.architecture->Qwen3_layers ==> paged->Ok_0->layers@[layer].layer
                == layer && paged->Ok_0->layers@[layer].max_size is None
        },
        sliding is Ok ==> {
            &&& sliding->Ok_0 is Layers
            &&& sliding->Ok_0->layers@.len() == model.architecture->Qwen3_layers
            &&& 0 <= layer < model.architecture->Qwen3_layers
                ==> sliding->Ok_0->layers@[layer].layer == layer
                && sliding->Ok_0->layers@[layer].max_size == Some(max_size)
        },
{
}

/// A model predicts ahead exactly where it is a Qwen hybrid with a prediction layer.
pub proof fn prediction_layers_make_a_model_ready<M>(
    model: ExpertParallelModel<M>,
    capability: MtpCapability,
    count: usize,
)
    requires
        call_ensures(ExpertParallelModel::<M>::mtp_capability, (&model,), capability),
        call_ensures(ExpertParallelModel::<M>::mtp_layer_count, (&model,), count),
    ensures
        capability is Unavailable <==> count == 0,
        count > 0 ==> model.architecture is QwenHybrid,
{
}

/// A descriptor is taken exactly where prompt caches are kept for the architecture and it
/// contradicts nothing.
pub proof fn taken_descriptors_contradict_nothing<M>(
    model: ExpertParallelModel<M>,
    descriptor: PromptCacheDescriptor,
)
    ensures
        model.descriptor_failure(descriptor) is None <==> identity_failure(model.architecture)
            is None && contradiction(descriptor, model.architecture, model.topology) is None,
{
}

} // verus!
