//! Decisions of expert-parallel loading: what is refused, who owns what, and what a
//! loaded rank reports.

use vstd::prelude::*;
use vstd::string::StringExecFns;

use crate::dense_stream::DenseDiskStreamLoadOptions;
use crate::error::{Error, Failure};
use crate::expert_cache::catalog::{ExpertCacheLoadOptions, ExpertCatalogEntry};
use crate::expert_parallel::assignment::{ExpertAssignment, Ownership};
use crate::expert_parallel::banks::{finalize_expert_banks, ExpertBank};
use crate::expert_parallel::placement::{
    expert_cache_base_plan, is_qwen_hybrid_decoder_expert_key, localize_split_expert_name, split_expert_id, KeyPlacement, ModelKind,
};
use crate::expert_parallel::routes::ExpertExchangeStrategy;
use crate::offload::LayerwiseLoadOptions;
use crate::order::sort_texts;
use crate::text::{contains_text, same_text, signed_text, starts_with, strip_prefix, usize_text};

verus! {

/// Ranks and sizes of the parallel axes.
#[derive(Debug, Clone, Copy, PartialEq, Eq, Structural)]
pub struct ParallelTopology {
    /// Processes of the group.
    pub world_size: usize,
    /// Rank in the group.
    pub global_rank: usize,
    /// Tensor-parallel size.
    pub tensor_parallel_size: usize,
    /// Pipeline-parallel size.
    pub pipeline_parallel_size: usize,
    /// Expert-parallel size.
    pub expert_parallel_size: usize,
    /// Expert-parallel rank.
    pub expert_parallel_rank: usize,
}

/// How model weights are kept.
#[derive(Debug, Clone, Copy, PartialEq, Eq, Structural)]
pub enum WeightResidency {
    /// All weights stay on the device.
    FullyResident,
    /// Layers come from the host.
    LayerwiseHost(LayerwiseLoadOptions),
    /// Dense layers stream from storage.
    DenseDiskStream(DenseDiskStreamLoadOptions),
    /// Routed experts are cached sparsely.
    SparseExpertCache(ExpertCacheLoadOptions),
    /// Routed experts are cached sparsely and dense layers stream.
    SparseExpertCacheWithDenseLayers(ExpertCacheLoadOptions),
}

/// Which loader reads a checkpoint.
#[derive(Debug, Clone, Copy, PartialEq, Eq, Structural)]
pub enum ExpertLoader {
    /// The DeepSeek loader.
    DeepSeek,
    /// The Qwen3 loader.
    Qwen3,
    /// The loader of architectures that always cache their experts.
    Additional(ModelKind),
}

/// Why a topology is not purely expert-parallel, if it is not.
pub open spec fn pure_expert_failure(topology: ParallelTopology) -> Option<Failure> {
    if topology.expert_parallel_size <= 1 {
        Some(Failure::Parallel("expert-parallel loading requires expert_parallel_size > 1"@))
    } else if topology.tensor_parallel_size != 1 || topology.pipeline_parallel_size != 1 {
        Some(
            Failure::Parallel(
                "pure expert-parallel execution requires TP=1 and PP=1, got TP="@
                    + crate::text::decimal(topology.tensor_parallel_size as nat) + " PP="@
                    + crate::text::decimal(topology.pipeline_parallel_size as nat) + " EP="@
                    + crate::text::decimal(topology.expert_parallel_size as nat)
                    + "; hybrid TP+EP and PP+EP are unsupported"@,
            ),
        )
    } else if topology.world_size != topology.expert_parallel_size {
        Some(
            Failure::Parallel(
                "pure expert-parallel world size must equal expert-parallel size"@,
            ),
        )
    } else {
        None
    }
}

/// Checks that a topology is purely expert-parallel.
pub fn validate_pure_expert(topology: &ParallelTopology) -> (outcome: Result<(), Error>)
    ensures
        crate::error::failed(outcome) == pure_expert_failure(*topology),
{
    if topology.expert_parallel_size <= 1 {
        return Err(
            Error::Parallel(
                "expert-parallel loading requires expert_parallel_size > 1".to_owned(),
            ),
        );
    }
    if topology.tensor_parallel_size != 1 || topology.pipeline_parallel_size != 1 {
        let mut text =
            "pure expert-parallel execution requires TP=1 and PP=1, got TP=".to_owned();
        text.append(usize_text(topology.tensor_parallel_size).as_str());
        text.append(" PP=");
        text.append(usize_text(topology.pipeline_parallel_size).as_str());
        text.append(" EP=");
        text.append(usize_text(topology.expert_parallel_size).as_str());
        text.append("; hybrid TP+EP and PP+EP are unsupported");
        return Err(Error::Parallel(text));
    }
    if topology.world_size != topology.expert_parallel_size {
        return Err(
            Error::Parallel(
                "pure expert-parallel world size must equal expert-parallel size".to_owned(),
            ),
        );
    }
    Ok(())
}

/// Starts a load: it needs a purely expert-parallel topology.
pub fn begin_load(parallel: Option<ParallelTopology>) -> (outcome: Result<ParallelTopology, Error>)
    ensures
        crate::error::failed(outcome) == (match parallel {
            None => Some(
                Failure::Parallel("expert-parallel loading requires ModelLoadOptions::parallel"@),
            ),
            Some(topology) => pure_expert_failure(topology),
        }),
        outcome matches Ok(topology) ==> parallel == Some(topology),
{
    match parallel {
        None => Err(
            Error::Parallel(
                "expert-parallel loading requires ModelLoadOptions::parallel".to_owned(),
            ),
        ),
        Some(topology) => match validate_pure_expert(&topology) {
            Ok(_) => Ok(topology),
            Err(error) => Err(error),
        },
    }
}

/// Refuses a single-file quantized checkpoint, which cannot be partitioned.
pub fn check_checkpoint_format(is_gguf: bool) -> (outcome: Result<(), Error>)
    ensures
        crate::error::failed(outcome) == (if is_gguf {
            Some(
                Failure::Parallel(
                    "expert-parallel GGUF loading is unsupported because bounded local-expert selection is unavailable; use safetensors"@,
                ),
            )
        } else {
            None
        }),
{
    if is_gguf {
        return Err(
            Error::Parallel(
                "expert-parallel GGUF loading is unsupported because bounded local-expert selection is unavailable; use safetensors".to_owned(),
            ),
        );
    }
    Ok(())
}

/// The text that configuration bytes give a key, if they give it one, or what the JSON
/// parser says where it refuses the bytes.
pub uninterp spec fn config_text(config: Seq<u8>, key: Seq<char>) -> Result<
    Option<Seq<char>>,
    Seq<char>,
>;

/// Calls `serde_json::from_slice` for a `serde_json::Value`, and looks up the text of a
/// key with `get` and `as_str`. Both that text and the parser's message depend on the
/// bytes and the key alone.
#[verifier::external_body]
fn read_config_text(config: &[u8], key: &str) -> (text: Result<Option<String>, String>)
    ensures
        config_text(config@, key@) == (match text {
            Ok(Some(text)) => Ok(Some(text@)),
            Ok(None) => Ok(None),
            Err(message) => Err(message@),
        }),
{
    let value = serde_json::from_slice::<serde_json::Value>(config)
        .map_err(|error| error.to_string())?;
    Ok(value.get(key).and_then(|text| text.as_str()).map(|text| text.to_owned()))
}

/// The loader of a model type.
pub open spec fn loader_of(model_type: Seq<char>) -> Option<ExpertLoader> {
    if model_type == "deepseek_v3"@ {
        Some(ExpertLoader::DeepSeek)
    } else if model_type == "qwen3"@ || model_type == "qwen3_moe"@ {
        Some(ExpertLoader::Qwen3)
    } else if model_type == "gpt_oss"@ {
        Some(ExpertLoader::Additional(ModelKind::GptOss))
    } else if model_type == "inkling_mm_model"@ {
        Some(ExpertLoader::Additional(ModelKind::Inkling))
    } else if model_type == "lfm2"@ || model_type == "lfm2_moe"@ {
        Some(ExpertLoader::Additional(ModelKind::Lfm2))
    } else if model_type == "nemotron_h"@ {
        Some(ExpertLoader::Additional(ModelKind::NemotronH))
    } else if model_type == "qwen3_next"@ {
        Some(ExpertLoader::Additional(ModelKind::Qwen3Next))
    } else if model_type == "qwen3_vl_moe"@ || model_type == "qwen3_vl_moe_text"@ {
        Some(ExpertLoader::Additional(ModelKind::Qwen3VlMoe))
    } else if model_type == "qwen3_5"@ || model_type == "qwen3_5_text"@ || model_type
        == "qwen3_5_moe"@ || model_type == "qwen3_5_moe_text"@ {
        Some(ExpertLoader::Additional(ModelKind::Qwen35Moe))
    } else {
        None
    }
}

/// Why a model type has no loader, if it has none.
pub open spec fn loader_failure(model_type: Option<Seq<char>>) -> Option<Failure> {
    match model_type {
        Some(model_type) => if loader_of(model_type) is Some {
            None
        } else {
            Some(
                Failure::UnsupportedArchitecture(
                    "expert-parallel execution requires a supported safetensors MoE architecture, not "@
                        + model_type,
                ),
            )
        },
        None => Some(
            Failure::UnsupportedArchitecture("expert-parallel model config is missing model_type"@),
        ),
    }
}

/// Chooses the loader of a model type.
pub fn choose_loader(model_type: Option<&str>) -> (outcome: Result<ExpertLoader, Error>)
    ensures
        crate::error::failed(outcome) == loader_failure(
            match model_type {
                Some(text) => Some(text@),
                None => None,
            },
        ),
        outcome matches Ok(loader) ==> model_type matches Some(text) && loader_of(text@) == Some(
            loader,
        ),
{
    let text = match model_type {
        Some(text) => text,
        None => {
            return Err(
                Error::UnsupportedArchitecture(
                    "expert-parallel model config is missing model_type".to_owned(),
                ),
            );
        },
    };
    if same_text(text, "deepseek_v3") {
        Ok(ExpertLoader::DeepSeek)
    } else if same_text(text, "qwen3") || same_text(text, "qwen3_moe") {
        Ok(ExpertLoader::Qwen3)
    } else if same_text(text, "gpt_oss") {
        Ok(ExpertLoader::Additional(ModelKind::GptOss))
    } else if same_text(text, "inkling_mm_model") {
        Ok(ExpertLoader::Additional(ModelKind::Inkling))
    } else if same_text(text, "lfm2") || same_text(text, "lfm2_moe") {
        Ok(ExpertLoader::Additional(ModelKind::Lfm2))
    } else if same_text(text, "nemotron_h") {
        Ok(ExpertLoader::Additional(ModelKind::NemotronH))
    } else if same_text(text, "qwen3_next") {
        Ok(ExpertLoader::Additional(ModelKind::Qwen3Next))
    } else if same_text(text, "qwen3_vl_moe") || same_text(text, "qwen3_vl_moe_text") {
        Ok(ExpertLoader::Additional(ModelKind::Qwen3VlMoe))
    } else if same_text(text, "qwen3_5") || same_text(text, "qwen3_5_text") || same_text(
        text,
        "qwen3_5_moe",
    ) || same_text(text, "qwen3_5_moe_text") {
        Ok(ExpertLoader::Additional(ModelKind::Qwen35Moe))
    } else {
        let mut message =
            "expert-parallel execution requires a supported safetensors MoE architecture, not ".to_owned();
        message.append(text);
        Err(Error::UnsupportedArchitecture(message))
    }
}

/// Chooses the loader that the `model_type` of a configuration asks for.
pub fn select_loader(config: &[u8]) -> (outcome: Result<ExpertLoader, Error>)
    ensures
        crate::error::failed(outcome) == (match config_text(config@, "model_type"@) {
            Ok(model_type) => loader_failure(model_type),
            Err(message) => Some(Failure::Deserialize(message)),
        }),
        outcome matches Ok(loader) ==> config_text(config@, "model_type"@) matches Ok(Some(model_type))
            && loader_of(model_type) == Some(loader),
{
    match read_config_text(config, "model_type") {
        Ok(Some(text)) => choose_loader(Some(text.as_str())),
        Ok(None) => choose_loader(None),
        Err(message) => Err(Error::Deserialize(message)),
    }
}

/// Why an assignment does not fit a model and a topology, if it does not.
pub open spec fn assignment_failure(
    table: Ownership,
    global_experts: usize,
    topology: ParallelTopology,
) -> Option<Failure> {
    if table.owners.len() != global_experts || table.group_size != topology.expert_parallel_size
        || table.rank != topology.expert_parallel_rank {
        Some(
            Failure::Parallel(
                "expert assignment describes "@ + crate::text::decimal(table.owners.len())
                    + " experts at rank "@ + crate::text::decimal(table.rank as nat) + "/"@
                    + crate::text::decimal(table.group_size as nat)
                    + ", but the model and topology require "@ + crate::text::decimal(
                    global_experts as nat,
                ) + " experts at rank "@ + crate::text::decimal(
                    topology.expert_parallel_rank as nat,
                ) + "/"@ + crate::text::decimal(topology.expert_parallel_size as nat),
            ),
        )
    } else if table.local_experts().len() == 0 {
        Some(
            Failure::Parallel(
                "expert-parallel model loading does not support an empty local expert bank on rank "@
                    + crate::text::decimal(table.rank as nat),
            ),
        )
    } else {
        None
    }
}

/// The balanced ownership table of a model under a topology.
pub open spec fn balanced_table(global_experts: usize, topology: ParallelTopology) -> Ownership {
    Ownership {
        owners: crate::expert_parallel::assignment::balanced_owners(
            global_experts as int,
            topology.expert_parallel_size as int,
            topology.expert_parallel_size as int,
        ),
        group_size: topology.expert_parallel_size,
        rank: topology.expert_parallel_rank,
        policy: crate::expert_parallel::assignment::AssignmentRule::BalancedContiguous,
    }
}

/// The ownership table of a supplied assignment.
pub open spec fn supplied_table(assignment: Option<ExpertAssignment>) -> Option<Ownership> {
    match assignment {
        Some(assignment) => Some(assignment@),
        None => None,
    }
}

/// The ownership table of a model: the supplied one, or else a balanced one.
pub open spec fn resolved_table(
    supplied: Option<Ownership>,
    global_experts: usize,
    topology: ParallelTopology,
) -> Ownership {
    match supplied {
        Some(table) => table,
        None => balanced_table(global_experts, topology),
    }
}

/// Why the assignment of a model cannot be resolved, if it cannot.
pub open spec fn resolution_failure(
    supplied: Option<Ownership>,
    global_experts: usize,
    topology: ParallelTopology,
) -> Option<Failure> {
    let balancing = crate::expert_parallel::assignment::even_failure(
        global_experts as int,
        topology.expert_parallel_size,
        topology.expert_parallel_rank,
        false,
    );
    if supplied is None && balancing is Some {
        balancing
    } else {
        assignment_failure(
            resolved_table(supplied, global_experts, topology),
            global_experts,
            topology,
        )
    }
}

/// Resolves the assignment of a model: the supplied one, or else a balanced one. It has
/// to describe all experts of the model at this rank, and leave this rank some.
pub fn resolve_model_assignment(
    assignment: Option<ExpertAssignment>,
    global_experts: usize,
    topology: &ParallelTopology,
) -> (outcome: Result<ExpertAssignment, Error>)
    ensures
        crate::error::failed(outcome) == resolution_failure(
            supplied_table(assignment),
            global_experts,
            *topology,
        ),
        outcome matches Ok(resolved) ==> {
            &&& resolved@ == resolved_table(supplied_table(assignment), global_experts, *topology)
            &&& resolved@.local_experts().len() > 0
            &&& resolved@.owners.len() == global_experts
        },
{
    let resolved = match assignment {
        Some(assignment) => assignment,
        None => match ExpertAssignment::balanced(
            global_experts,
            topology.expert_parallel_size,
            topology.expert_parallel_rank,
        ) {
            Ok(assignment) => assignment,
            Err(error) => {
                return Err(error);
            },
        },
    };
    if resolved.global_expert_count() != global_experts || resolved.group_size()
        != topology.expert_parallel_size || resolved.rank() != topology.expert_parallel_rank {
        let mut text = "expert assignment describes ".to_owned();
        text.append(usize_text(resolved.global_expert_count()).as_str());
        text.append(" experts at rank ");
        text.append(usize_text(resolved.rank()).as_str());
        text.append("/");
        text.append(usize_text(resolved.group_size()).as_str());
        text.append(", but the model and topology require ");
        text.append(usize_text(global_experts).as_str());
        text.append(" experts at rank ");
        text.append(usize_text(topology.expert_parallel_rank).as_str());
        text.append("/");
        text.append(usize_text(topology.expert_parallel_size).as_str());
        return Err(Error::Parallel(text));
    }
    if resolved.local_expert_count() == 0 {
        let mut text =
            "expert-parallel model loading does not support an empty local expert bank on rank ".to_owned();
        text.append(usize_text(resolved.rank()).as_str());
        return Err(Error::Parallel(text));
    }
    Ok(resolved)
}

/// How a loader with resident and cached experts treats a residency.
pub fn choose_expert_residency(residency: &WeightResidency) -> (outcome: Result<
    Option<ExpertCacheLoadOptions>,
    Error,
>)
    ensures
        match *residency {
            WeightResidency::FullyResident => outcome == Ok::<Option<ExpertCacheLoadOptions>, Error>(None),
            WeightResidency::SparseExpertCache(options) => outcome == Ok::<
                Option<ExpertCacheLoadOptions>,
                Error,
            >(Some(options)),
            _ => outcome matches Err(error) && error@ == Failure::Parallel(
                "expert-parallel loading accepts fully resident weights or SparseExpertCache; dense non-expert layer streaming is not supported"@,
            ),
        },
{
    match residency {
        WeightResidency::FullyResident => Ok(None),
        WeightResidency::SparseExpertCache(options) => Ok(Some(*options)),
        _ => Err(
            Error::Parallel(
                "expert-parallel loading accepts fully resident weights or SparseExpertCache; dense non-expert layer streaming is not supported".to_owned(),
            ),
        ),
    }
}

/// Refuses quantization at load time where experts are cached.
pub fn check_cached_quantization(requested: bool) -> (outcome: Result<(), Error>)
    ensures
        crate::error::failed(outcome) == (if requested {
            Some(
                Failure::Quantization(
                    "load-time quantization is unsupported with sparse expert-cached expert parallelism; use checkpoint-native weights"@,
                ),
            )
        } else {
            None
        }),
{
    if requested {
        return Err(
            Error::Quantization(
                "load-time quantization is unsupported with sparse expert-cached expert parallelism; use checkpoint-native weights".to_owned(),
            ),
        );
    }
    Ok(())
}

/// Checks a DeepSeek configuration for resident loading.
pub fn check_deepseek_config(n_routed_experts: i32, quantization: bool, native_fp8: bool) -> (outcome:
    Result<usize, Error>)
    ensures
        crate::error::failed(outcome) == (if n_routed_experts <= 0 {
            Some(Failure::Parallel("DeepSeek config has no routed experts"@))
        } else if quantization && native_fp8 {
            Some(
                Failure::Quantization(
                    "native DeepSeek block-FP8 expert-parallel weights cannot be implicitly dequantized and requantized"@,
                ),
            )
        } else {
            None
        }),
        outcome matches Ok(experts) ==> experts == n_routed_experts,
{
    if n_routed_experts <= 0 {
        return Err(Error::Parallel("DeepSeek config has no routed experts".to_owned()));
    }
    if quantization && native_fp8 {
        return Err(
            Error::Quantization(
                "native DeepSeek block-FP8 expert-parallel weights cannot be implicitly dequantized and requantized".to_owned(),
            ),
        );
    }
    Ok(n_routed_experts as usize)
}

/// Checks a Qwen3 configuration.
pub fn check_qwen3_config(num_experts: i32) -> (outcome: Result<usize, Error>)
    ensures
        crate::error::failed(outcome) == (if num_experts <= 0 {
            Some(Failure::Parallel("Qwen3 config is dense and has no routed experts"@))
        } else {
            None
        }),
        outcome matches Ok(experts) ==> experts == num_experts,
{
    if num_experts <= 0 {
        return Err(Error::Parallel("Qwen3 config is dense and has no routed experts".to_owned()));
    }
    Ok(num_experts as usize)
}

/// What the loaders of always-cached architectures read from a configuration.
#[derive(Debug, Clone, Copy, PartialEq, Eq, Structural)]
pub struct AdditionalArchitecture {
    /// Routed experts of the configuration.
    pub routed_experts: i32,
    /// Whether some layer routes to experts.
    pub has_moe_layers: bool,
}

/// Why an always-cached architecture is refused, if it is.
pub open spec fn additional_failure(
    kind: ModelKind,
    name: Seq<char>,
    config: AdditionalArchitecture,
) -> Option<Failure> {
    match kind {
        ModelKind::GptOss => None,
        ModelKind::Inkling => if config.routed_experts < 0 {
            Some(Failure::Parallel("Inkling routed expert count is negative"@))
        } else if config.routed_experts == 0 || !config.has_moe_layers {
            Some(
                Failure::UnsupportedArchitecture(
                    "expert parallelism requires an Inkling checkpoint with routed MoE layers"@,
                ),
            )
        } else {
            None
        },
        ModelKind::Lfm2 => if !config.has_moe_layers {
            Some(
                Failure::UnsupportedArchitecture(
                    "expert parallelism requires an LFM2 MoE checkpoint"@,
                ),
            )
        } else {
            None
        },
        ModelKind::NemotronH => if !config.has_moe_layers {
            Some(
                Failure::UnsupportedArchitecture(
                    "expert parallelism requires a Nemotron-H MoE checkpoint"@,
                ),
            )
        } else {
            None
        },
        ModelKind::Qwen3Next | ModelKind::Qwen35Moe => if !config.has_moe_layers {
            Some(
                Failure::UnsupportedArchitecture(
                    "expert parallelism requires a "@ + name + " MoE checkpoint"@,
                ),
            )
        } else {
            None
        },
        ModelKind::Qwen3VlMoe => if !config.has_moe_layers {
            Some(
                Failure::UnsupportedArchitecture(
                    "expert parallelism requires a Qwen3-VL-MoE checkpoint"@,
                ),
            )
        } else {
            None
        },
        ModelKind::DeepSeekV3 | ModelKind::Qwen3 => Some(
            Failure::UnsupportedArchitecture(
                name + " is not an additional sparse expert-parallel architecture"@,
            ),
        ),
    }
}

fn unsupported(text: &str) -> (error: Error)
    ensures
        error@ == Failure::UnsupportedArchitecture(text@),
{
    Error::UnsupportedArchitecture(text.to_owned())
}

/// Checks an always-cached architecture and answers how many experts it routes to.
/// `model_type_name` is how messages name the architecture.
pub fn additional_experts(
    kind: ModelKind,
    model_type_name: &str,
    config: AdditionalArchitecture,
) -> (outcome: Result<usize, Error>)
    ensures
        crate::error::failed(outcome) == additional_failure(kind, model_type_name@, config),
        outcome matches Ok(experts) ==> experts == config.routed_experts as usize,
{
    match kind {
        ModelKind::GptOss => {},
        ModelKind::Inkling => {
            if config.routed_experts < 0 {
                return Err(Error::Parallel("Inkling routed expert count is negative".to_owned()));
            }
            if config.routed_experts == 0 || !config.has_moe_layers {
                return Err(
                    unsupported(
                        "expert parallelism requires an Inkling checkpoint with routed MoE layers",
                    ),
                );
            }
        },
        ModelKind::Lfm2 => {
            if !config.has_moe_layers {
                return Err(unsupported("expert parallelism requires an LFM2 MoE checkpoint"));
            }
        },
        ModelKind::NemotronH => {
            if !config.has_moe_layers {
                return Err(
                    unsupported("expert parallelism requires a Nemotron-H MoE checkpoint"),
                );
            }
        },
        ModelKind::Qwen3Next | ModelKind::Qwen35Moe => {
            if !config.has_moe_layers {
                let mut text = "expert parallelism requires a ".to_owned();
                text.append(model_type_name);
                text.append(" MoE checkpoint");
                return Err(Error::UnsupportedArchitecture(text));
            }
        },
        ModelKind::Qwen3VlMoe => {
            if !config.has_moe_layers {
                return Err(unsupported("expert parallelism requires a Qwen3-VL-MoE checkpoint"));
            }
        },
        ModelKind::DeepSeekV3 | ModelKind::Qwen3 => {
            let mut text = model_type_name.to_owned();
            text.append(" is not an additional sparse expert-parallel architecture");
            return Err(Error::UnsupportedArchitecture(text));
        },
    }
    Ok(config.routed_experts as usize)
}

/// Starts loading an always-cached architecture: quantization at load time is refused,
/// and experts have to be cached.
pub fn begin_additional_load(
    quantization: bool,
    residency: &WeightResidency,
    model_type_name: &str,
) -> (outcome: Result<ExpertCacheLoadOptions, Error>)
    ensures
        crate::error::failed(outcome) == cached_load_failure(
            quantization,
            *residency,
            model_type_name@,
        ),
        outcome matches Ok(options) ==> *residency == WeightResidency::SparseExpertCache(options),
{
    match check_cached_quantization(quantization) {
        Ok(_) => {},
        Err(error) => {
            return Err(error);
        },
    }
    match residency {
        WeightResidency::SparseExpertCache(options) => Ok(*options),
        _ => {
            let mut text = model_type_name.to_owned();
            text.append(
                " expert-parallel execution requires WeightResidency::SparseExpertCache so remote experts are never materialized",
            );
            Err(Error::Parallel(text))
        },
    }
}

/// Whether a parameter of an always-cached architecture belongs to its routed experts,
/// which are neither assigned nor counted as replicated.
pub open spec fn cached_parameter(kind: ModelKind, name: Seq<char>) -> bool {
    match kind {
        ModelKind::Inkling => crate::text::occurs(name, ".moe.experts."@),
        ModelKind::NemotronH => crate::text::occurs(name, ".moe.experts."@),
        ModelKind::Lfm2 => crate::text::occurs(name, ".feed_forward.experts."@),
        ModelKind::Qwen3Next => crate::expert_parallel::placement::qwen_decoder_expert(name),
        ModelKind::Qwen35Moe => crate::expert_parallel::placement::qwen_decoder_expert(name),
        _ => crate::text::occurs(name, ".mlp.experts."@),
    }
}

/// Answers whether a parameter belongs to cached routed experts.
pub fn is_cached_parameter(kind: ModelKind, name: &str) -> (cached: bool)
    ensures
        cached == cached_parameter(kind, name@),
{
    match kind {
        ModelKind::Inkling | ModelKind::NemotronH => contains_text(name, ".moe.experts."),
        ModelKind::Lfm2 => contains_text(name, ".feed_forward.experts."),
        ModelKind::Qwen3Next | ModelKind::Qwen35Moe => is_qwen_hybrid_decoder_expert_key(name),
        _ => contains_text(name, ".mlp.experts."),
    }
}

/// One parameter of a loaded model.
#[derive(Debug, Clone, PartialEq, Eq)]
pub struct ParameterSize {
    /// Parameter name.
    pub name: String,
    /// Materialized bytes.
    pub bytes: usize,
}

/// Bytes of all parameters.
pub open spec fn parameter_total(parameters: Seq<ParameterSize>) -> int
    decreases parameters.len(),
{
    if parameters.len() == 0 {
        0
    } else {
        parameter_total(parameters.drop_last()) + parameters.last().bytes
    }
}

/// Bytes of the parameters that are not cached routed experts.
pub open spec fn replicated_total(parameters: Seq<ParameterSize>, kind: ModelKind) -> int
    decreases parameters.len(),
{
    if parameters.len() == 0 {
        0
    } else {
        replicated_total(parameters.drop_last(), kind) + if cached_parameter(
            kind,
            parameters.last().name@,
        ) {
            0int
        } else {
            parameters.last().bytes as int
        }
    }
}

proof fn totals_grow(parameters: Seq<ParameterSize>, kind: ModelKind, length: int)
    requires
        0 <= length <= parameters.len(),
    ensures
        0 <= parameter_total(parameters.take(length)) <= parameter_total(parameters),
        0 <= replicated_total(parameters.take(length), kind) <= replicated_total(
            parameters,
            kind,
        ),
        replicated_total(parameters, kind) <= parameter_total(parameters),
    decreases parameters.len(),
{
    if length == parameters.len() {
        assert(parameters.take(length) =~= parameters);
        if parameters.len() > 0 {
            assert(parameters.drop_last().take(length - 1) =~= parameters.drop_last());
            totals_grow(parameters.drop_last(), kind, length - 1);
        }
    } else {
        assert(parameters.drop_last().take(length) =~= parameters.take(length));
        totals_grow(parameters.drop_last(), kind, length);
    }
}

/// Adds up the bytes of all parameters.
pub fn parameter_bytes(parameters: &Vec<ParameterSize>) -> (bytes: usize)
    requires
        parameter_total(parameters@) <= usize::MAX,
    ensures
        bytes == parameter_total(parameters@),
{
    let mut bytes: usize = 0;
    let mut index: usize = 0;
    while index < parameters.len()
        invariant
            index <= parameters@.len(),
            parameter_total(parameters@) <= usize::MAX,
            bytes == parameter_total(parameters@.take(index as int)),
        decreases parameters@.len() - index,
    {
        proof {
            assert(parameters@.take(index + 1).drop_last() =~= parameters@.take(index as int));
            totals_grow(parameters@, ModelKind::Qwen3, index + 1);
        }
        bytes = bytes + parameters[index].bytes;
        index = index + 1;
    }
    assert(parameters@.take(index as int) =~= parameters@);
    bytes
}

/// Adds up the bytes of the parameters that are not cached routed experts.
pub fn replicated_parameter_bytes(parameters: &Vec<ParameterSize>, kind: ModelKind) -> (bytes: usize)
    requires
        parameter_total(parameters@) <= usize::MAX,
    ensures
        bytes == replicated_total(parameters@, kind),
{
    let mut bytes: usize = 0;
    let mut index: usize = 0;
    while index < parameters.len()
        invariant
            index <= parameters@.len(),
            parameter_total(parameters@) <= usize::MAX,
            bytes == replicated_total(parameters@.take(index as int), kind),
        decreases parameters@.len() - index,
    {
        proof {
            assert(parameters@.take(index + 1).drop_last() =~= parameters@.take(index as int));
            totals_grow(parameters@, kind, index + 1);
        }
        if !is_cached_parameter(kind, parameters[index].name.as_str()) {
            bytes = bytes + parameters[index].bytes;
        }
        index = index + 1;
    }
    assert(parameters@.take(index as int) =~= parameters@);
    bytes
}

/// Prefixes of the layers that follow the decoder and may stay unused.
pub open spec fn unused_prefixes(num_hidden_layers: int, extra_layers: int) -> Seq<Seq<char>> {
    Seq::new(
        if extra_layers < 0 {
            0
        } else {
            extra_layers as nat
        },
        |i: int| "model.layers."@ + crate::text::signed_decimal(num_hidden_layers + i) + "."@,
    )
}

/// Lists the prefixes of layers that may stay unused.
pub fn unused_layer_prefixes(num_hidden_layers: i32, extra_layers: i32) -> (prefixes: Vec<String>)
    requires
        num_hidden_layers + extra_layers <= i32::MAX,
    ensures
        crate::error::texts(prefixes@) == unused_prefixes(
            num_hidden_layers as int,
            extra_layers as int,
        ),
{
    let mut prefixes: Vec<String> = Vec::new();
    let mut index: i32 = 0;
    assert(crate::error::texts(prefixes@) =~= unused_prefixes(num_hidden_layers as int, 0));
    while index < extra_layers
        invariant
            0 <= index,
            index <= extra_layers || index == 0,
            num_hidden_layers + extra_layers <= i32::MAX,
            crate::error::texts(prefixes@) == unused_prefixes(
                num_hidden_layers as int,
                index as int,
            ),
        decreases extra_layers - index,
    {
        let ghost before = prefixes@;
        let mut prefix = "model.layers.".to_owned();
        prefix.append(signed_text((num_hidden_layers + index) as i64).as_str());
        prefix.append(".");
        prefixes.push(prefix);
        proof {
            assert(crate::error::texts(prefixes@) =~= crate::error::texts(before).push(prefix@));
            assert(crate::error::texts(prefixes@) =~= unused_prefixes(
                num_hidden_layers as int,
                index + 1,
            ));
        }
        index = index + 1;
    }
    assert(unused_prefixes(num_hidden_layers as int, extra_layers as int) =~= unused_prefixes(
        num_hidden_layers as int,
        index as int,
    ));
    prefixes
}

/// The names under which tensors are loaded on this rank: split expert tensors of its
/// experts under their owner-local expert, those of other ranks not at all, and every
/// other tensor under its own name.
pub open spec fn loaded_name(name: Seq<char>, table: Ownership) -> Option<Seq<char>> {
    if crate::expert_parallel::placement::split_expert(name) is Some {
        crate::expert_parallel::placement::localized_name(name, table)
    } else {
        Some(name)
    }
}

/// Returns the name under which a tensor is loaded on this rank, if it is.
pub fn localize_tensor_name(name: &String, assignment: &ExpertAssignment) -> (local: Option<String>)
    ensures
        match local {
            Some(local) => loaded_name(name@, assignment@) == Some(local@),
            None => loaded_name(name@, assignment@) is None,
        },
{
    if split_expert_id(name.as_str()).is_some() {
        localize_split_expert_name(name.as_str(), assignment)
    } else {
        Some(name.clone())
    }
}

/// Returns the owner-local name of an expert tensor of one layer, if it is one of this
/// rank.
pub fn localize_layer_expert_name(name: &String, layer: usize, assignment: &ExpertAssignment) -> (local:
    Option<String>)
    ensures
        ({
            let prefix = "model.layers."@ + crate::text::decimal(layer as nat)
                + ".mlp.experts."@;
            let expected = if prefix.is_prefix_of(name@) {
                crate::expert_parallel::placement::localized_name(name@, assignment@)
            } else {
                None
            };
            match local {
                Some(local) => expected == Some(local@),
                None => expected is None,
            }
        }),
{
    let mut prefix = "model.layers.".to_owned();
    prefix.append(usize_text(layer).as_str());
    prefix.append(".mlp.experts.");
    if starts_with(name.as_str(), prefix.as_str()) {
        localize_split_expert_name(name.as_str(), assignment)
    } else {
        None
    }
}

/// Fails where tensors are left over, naming them in dictionary order.
pub fn ensure_no_unused_tensors(names: Vec<String>) -> (outcome: Result<(), Error>)
    ensures
        crate::error::failed(outcome) == (if names@.len() == 0 {
            None
        } else {
            Some(
                Failure::StrictLoadValidation(
                    Seq::empty(),
                    crate::error::texts(names@).sort_by(crate::order::by_text()),
                ),
            )
        }),
{
    if names.len() == 0 {
        return Ok(());
    }
    let unused = sort_texts(names);
    let missing: Vec<String> = Vec::new();
    assert(crate::error::texts(missing@) =~= Seq::empty());
    Err(Error::StrictLoadValidation { missing, unused })
}

/// The first key that an earlier key equals.
pub open spec fn first_repeated(keys: Seq<Seq<char>>, from: int) -> Option<int>
    decreases keys.len() - from,
{
    if from >= keys.len() {
        None
    } else if keys.take(from).contains(keys[from]) {
        Some(from)
    } else {
        first_repeated(keys, from + 1)
    }
}

/// Fails where transforming a checkpoint gives a key twice.
pub fn check_transformed_keys(keys: &Vec<String>) -> (outcome: Result<(), Error>)
    ensures
        crate::error::failed(outcome) == (match first_repeated(crate::error::texts(keys@), 0) {
            Some(at) => Some(
                Failure::StrictLoadValidation(
                    Seq::empty(),
                    seq!["duplicate transformed checkpoint key "@ + keys@[at]@],
                ),
            ),
            None => None,
        }),
{
    let ghost texts = crate::error::texts(keys@);
    let mut index: usize = 0;
    while index < keys.len()
        invariant
            index <= keys@.len(),
            texts == crate::error::texts(keys@),
            first_repeated(texts, 0) == first_repeated(texts, index as int),
        decreases keys@.len() - index,
    {
        let mut other: usize = 0;
        while other < index
            invariant
                other <= index < keys@.len(),
                texts == crate::error::texts(keys@),
                first_repeated(texts, 0) == first_repeated(texts, index as int),
                forall|i: int| 0 <= i < other ==> #[trigger] texts[i] != texts[index as int],
            decreases index - other,
        {
            if keys[other] == keys[index] {
                proof {
                    assert(texts.take(index as int)[other as int] == texts[index as int]);
                    assert(texts.take(index as int).contains(texts[index as int]));
                }
                let mut text = "duplicate transformed checkpoint key ".to_owned();
                text.append(keys[index].as_str());
                let missing: Vec<String> = Vec::new();
                let mut unused: Vec<String> = Vec::new();
                unused.push(text);
                assert(crate::error::texts(missing@) =~= Seq::empty());
                assert(crate::error::texts(unused@) =~= seq![text@]);
                return Err(Error::StrictLoadValidation { missing, unused });
            }
            other = other + 1;
        }
        proof {
            if texts.take(index as int).contains(texts[index as int]) {
                let i = choose|i: int|
                    0 <= i < index && texts.take(index as int)[i] == texts[index as int];
                assert(texts[i] == texts[index as int]);
            }
        }
        index = index + 1;
    }
    Ok(())
}

/// The name of a Nemotron-H tensor in the model: `backbone.` becomes `model.`.
pub fn rename_backbone_key(key: &str) -> (renamed: String)
    ensures
        "backbone."@.is_prefix_of(key@) ==> renamed@ == "model."@ + key@.skip(
            "backbone."@.len() as int,
        ),
        !"backbone."@.is_prefix_of(key@) ==> renamed@ == key@,
{
    match strip_prefix(key, "backbone.") {
        Some(suffix) => {
            let mut renamed = "model.".to_owned();
            renamed.append(suffix);
            assert(suffix@ =~= key@.skip("backbone."@.len() as int));
            renamed
        },
        None => key.to_owned(),
    }
}

/// Catalog entries of the experts that a rank owns, in order.
pub open spec fn owned_entries(entries: Seq<ExpertCatalogEntry>, table: Ownership) -> Seq<
    ExpertCatalogEntry,
>
    decreases entries.len(),
{
    if entries.len() == 0 {
        Seq::empty()
    } else {
        let before = owned_entries(entries.drop_last(), table);
        let entry = entries.last();
        if entry.expert().global_expert < table.owners.len()
            && table.owners[entry.expert().global_expert as int] == table.rank {
            before.push(entry)
        } else {
            before
        }
    }
}

/// Bytes of catalog entries together.
pub open spec fn catalog_bytes(entries: Seq<ExpertCatalogEntry>) -> int
    decreases entries.len(),
{
    if entries.len() == 0 {
        0
    } else {
        catalog_bytes(entries.drop_last()) + entries.last().size()
    }
}

/// Keeps the catalog entries of the experts that this rank owns and adds up their bytes.
pub fn rank_owned_experts(entries: Vec<ExpertCatalogEntry>, assignment: &ExpertAssignment) -> (owned:
    Result<(Vec<ExpertCatalogEntry>, usize), Error>)
    requires
        catalog_bytes(owned_entries(entries@, assignment@)) <= u64::MAX,
    ensures
        crate::error::failed(owned) == (if catalog_bytes(owned_entries(entries@, assignment@))
            > usize::MAX {
            Some(Failure::Parallel("owned expert bytes exceed usize"@))
        } else {
            None
        }),
        owned matches Ok((kept, bytes)) ==> kept@ == owned_entries(entries@, assignment@) && bytes
            == catalog_bytes(kept@),
{
    let mut kept: Vec<ExpertCatalogEntry> = Vec::new();
    let mut bytes: u64 = 0;
    let ghost all = entries@;
    for entry in walk: entries
        invariant
            walk.seq() == all,
            catalog_bytes(owned_entries(all, assignment@)) <= u64::MAX,
            kept@ == owned_entries(all.take(walk.index() as int), assignment@),
            bytes == catalog_bytes(kept@),
    {
        proof {
            let taken = walk.index() as int;
            assert(all.take(taken + 1).drop_last() =~= all.take(taken));
            assert(entry == all[taken]);
            owned_bytes_grow(all, assignment@, taken + 1);
        }
        let mine = match assignment.owner(entry.identity().global_expert) {
            Some(owner) => owner == assignment.rank(),
            None => false,
        };
        if mine {
            let size: u64 = entry.bytes();
            assert(kept@.push(entry).drop_last() =~= kept@);
            kept.push(entry);
            bytes = bytes + size;
        }
    }
    assert(all.take(all.len() as int) =~= all);
    if bytes > usize::MAX as u64 {
        return Err(Error::Parallel("owned expert bytes exceed usize".to_owned()));
    }
    Ok((kept, bytes as usize))
}

proof fn owned_bytes_grow(entries: Seq<ExpertCatalogEntry>, table: Ownership, length: int)
    requires
        0 <= length <= entries.len(),
    ensures
        0 <= catalog_bytes(owned_entries(entries.take(length), table)) <= catalog_bytes(
            owned_entries(entries, table),
        ),
    decreases entries.len(),
{
    if entries.len() > 0 {
        let rest = entries.drop_last();
        let before = owned_entries(rest, table);
        let all = owned_entries(entries, table);
        if length == entries.len() {
            assert(entries.take(length) =~= entries);
            owned_bytes_grow(rest, table, length - 1);
            assert(rest.take(length - 1) =~= rest);
        } else {
            owned_bytes_grow(rest, table, length);
            assert(rest.take(length) =~= entries.take(length));
        }
        if all.len() > before.len() {
            assert(all.drop_last() =~= before);
        }
    } else {
        assert(entries.take(length) =~= entries);
    }
}

/// Immutable description of a rank-local expert-parallel model.
#[derive(Debug, Clone)]
pub struct ExpertParallelInfo {
    /// Global rank.
    pub global_rank: usize,
    /// Rank in the EP group.
    pub expert_parallel_rank: usize,
    /// EP group size.
    pub expert_parallel_size: usize,
    /// Loaded architecture.
    pub model_kind: ModelKind,
    /// Assignment metadata.
    pub assignment: ExpertAssignment,
    /// Bytes in all locally materialized parameters.
    pub local_parameter_bytes: usize,
    /// Bytes in local routed-expert tensors.
    pub routed_expert_bytes: usize,
    /// Bytes in all cold, warm, or hot routed experts owned by this rank.
    pub owned_expert_bytes: usize,
    /// Bytes in replicated tensors.
    pub replicated_parameter_bytes: usize,
    /// Checkpoint shards opened by this rank.
    pub opened_checkpoint_shards: Vec<String>,
    /// Active route transport.
    pub exchange_strategy: ExpertExchangeStrategy,
}

impl ExpertParallelInfo {
    /// Describes a rank whose experts are resident.
    pub fn resident(
        topology: &ParallelTopology,
        model_kind: ModelKind,
        assignment: ExpertAssignment,
        local_parameter_bytes: usize,
        routed_expert_bytes: usize,
        opened_checkpoint_shards: Vec<String>,
    ) -> (info: Self)
        requires
            routed_expert_bytes <= local_parameter_bytes,
        ensures
            info == (ExpertParallelInfo {
                global_rank: topology.global_rank,
                expert_parallel_rank: topology.expert_parallel_rank,
                expert_parallel_size: topology.expert_parallel_size,
                model_kind,
                assignment,
                local_parameter_bytes,
                routed_expert_bytes,
                owned_expert_bytes: routed_expert_bytes,
                replicated_parameter_bytes: (local_parameter_bytes - routed_expert_bytes) as usize,
                opened_checkpoint_shards,
                exchange_strategy: ExpertExchangeStrategy::ReplicatedInputAllSum,
            }),
    {
        ExpertParallelInfo {
            global_rank: topology.global_rank,
            expert_parallel_rank: topology.expert_parallel_rank,
            expert_parallel_size: topology.expert_parallel_size,
            model_kind,
            assignment,
            local_parameter_bytes,
            routed_expert_bytes,
            owned_expert_bytes: routed_expert_bytes,
            replicated_parameter_bytes: local_parameter_bytes - routed_expert_bytes,
            opened_checkpoint_shards,
            exchange_strategy: ExpertExchangeStrategy::ReplicatedInputAllSum,
        }
    }

    /// Describes a rank whose experts are cached: none of their bytes are resident.
    pub fn cached(
        topology: &ParallelTopology,
        model_kind: ModelKind,
        assignment: ExpertAssignment,
        owned_expert_bytes: usize,
        replicated_parameter_bytes: usize,
        opened_checkpoint_shards: Vec<String>,
    ) -> (info: Self)
        ensures
            info == (ExpertParallelInfo {
                global_rank: topology.global_rank,
                expert_parallel_rank: topology.expert_parallel_rank,
                expert_parallel_size: topology.expert_parallel_size,
                model_kind,
                assignment,
                local_parameter_bytes: replicated_parameter_bytes,
                routed_expert_bytes: 0,
                owned_expert_bytes,
                replicated_parameter_bytes,
                opened_checkpoint_shards,
                exchange_strategy: ExpertExchangeStrategy::ReplicatedInputAllSum,
            }),
    {
        ExpertParallelInfo {
            global_rank: topology.global_rank,
            expert_parallel_rank: topology.expert_parallel_rank,
            expert_parallel_size: topology.expert_parallel_size,
            model_kind,
            assignment,
            local_parameter_bytes: replicated_parameter_bytes,
            routed_expert_bytes: 0,
            owned_expert_bytes,
            replicated_parameter_bytes,
            opened_checkpoint_shards,
            exchange_strategy: ExpertExchangeStrategy::ReplicatedInputAllSum,
        }
    }
}

/// Why a residency or a quantization keeps an always-cached architecture from loading, if
/// it does.
pub open spec fn cached_load_failure(
    quantization: bool,
    residency: WeightResidency,
    name: Seq<char>,
) -> Option<Failure> {
    if quantization {
        Some(
            Failure::Quantization(
                "load-time quantization is unsupported with sparse expert-cached expert parallelism; use checkpoint-native weights"@,
            ),
        )
    } else if !(residency is SparseExpertCache) {
        Some(
            Failure::Parallel(
                name
                    + " expert-parallel execution requires WeightResidency::SparseExpertCache so remote experts are never materialized"@,
            ),
        )
    } else {
        None
    }
}

/// First step of loading an always-cached architecture: the options of its expert cache,
/// and the keys of the checkpoint that are not materialized.
pub fn plan_additional_cached_load(
    quantization: bool,
    residency: &WeightResidency,
    kind: ModelKind,
    model_type_name: &str,
    keys: &Vec<String>,
) -> (outcome: Result<(ExpertCacheLoadOptions, Vec<KeyPlacement>), Error>)
    ensures
        crate::error::failed(outcome) == cached_load_failure(
            quantization,
            *residency,
            model_type_name@,
        ),
        outcome matches Ok((options, plan)) ==> {
            &&& *residency == WeightResidency::SparseExpertCache(options)
            &&& crate::expert_parallel::placement::places(plan@)
                == crate::expert_parallel::placement::omitted_keys(
                crate::error::texts(keys@),
                kind,
            )
        },
{
    match begin_additional_load(quantization, residency, model_type_name) {
        Ok(options) => {
            let plan = expert_cache_base_plan(keys, kind);
            Ok((options, plan))
        },
        Err(error) => Err(error),
    }
}

/// Why the experts of an always-cached architecture cannot be assigned, if they cannot.
pub open spec fn additional_assignment_failure(
    kind: ModelKind,
    name: Seq<char>,
    config: AdditionalArchitecture,
    supplied: Option<Ownership>,
    topology: ParallelTopology,
) -> Option<Failure> {
    match additional_failure(kind, name, config) {
        Some(failure) => Some(failure),
        None => resolution_failure(supplied, config.routed_experts as usize, topology),
    }
}

/// Second step of loading an always-cached architecture: who owns its experts.
pub fn assign_additional_experts(
    kind: ModelKind,
    model_type_name: &str,
    config: AdditionalArchitecture,
    assignment: Option<ExpertAssignment>,
    topology: &ParallelTopology,
) -> (outcome: Result<ExpertAssignment, Error>)
    ensures
        crate::error::failed(outcome) == additional_assignment_failure(
            kind,
            model_type_name@,
            config,
            supplied_table(assignment),
            *topology,
        ),
        outcome matches Ok(resolved) ==> resolved@ == resolved_table(
            supplied_table(assignment),
            config.routed_experts as usize,
            *topology,
        ),
{
    match additional_experts(kind, model_type_name, config) {
        Ok(experts) => resolve_model_assignment(assignment, experts, topology),
        Err(error) => Err(error),
    }
}

/// Why a load with these leftover tensors and catalog entries fails, if it does.
pub open spec fn cached_finish_failure(
    leftover: Seq<Seq<char>>,
    entries: Seq<ExpertCatalogEntry>,
    table: Ownership,
) -> Option<Failure> {
    if leftover.len() > 0 {
        Some(
            Failure::StrictLoadValidation(
                Seq::empty(),
                leftover.sort_by(crate::order::by_text()),
            ),
        )
    } else if catalog_bytes(owned_entries(entries, table)) > usize::MAX {
        Some(Failure::Parallel("owned expert bytes exceed usize"@))
    } else {
        None
    }
}

/// Last step of loading a model whose experts are cached: no tensor may be left over, the
/// cache gets the experts of this rank, and the description counts what is replicated.
pub fn finish_additional_cached_ep(
    topology: &ParallelTopology,
    kind: ModelKind,
    assignment: ExpertAssignment,
    leftover: Vec<String>,
    entries: Vec<ExpertCatalogEntry>,
    parameters: &Vec<ParameterSize>,
    opened_checkpoint_shards: Vec<String>,
) -> (outcome: Result<(Vec<ExpertCatalogEntry>, ExpertParallelInfo), Error>)
    requires
        catalog_bytes(owned_entries(entries@, assignment@)) <= u64::MAX,
        parameter_total(parameters@) <= usize::MAX,
    ensures
        crate::error::failed(outcome) == cached_finish_failure(
            crate::error::texts(leftover@),
            entries@,
            assignment@,
        ),
        outcome matches Ok((owned, info)) ==> {
            &&& owned@ == owned_entries(entries@, assignment@)
            &&& info == (ExpertParallelInfo {
                global_rank: topology.global_rank,
                expert_parallel_rank: topology.expert_parallel_rank,
                expert_parallel_size: topology.expert_parallel_size,
                model_kind: kind,
                assignment,
                local_parameter_bytes: replicated_total(parameters@, kind) as usize,
                routed_expert_bytes: 0,
                owned_expert_bytes: catalog_bytes(owned@) as usize,
                replicated_parameter_bytes: replicated_total(parameters@, kind) as usize,
                opened_checkpoint_shards,
                exchange_strategy: ExpertExchangeStrategy::ReplicatedInputAllSum,
            })
        },
{
    match ensure_no_unused_tensors(leftover) {
        Ok(_) => {},
        Err(error) => {
            return Err(error);
        },
    }
    match rank_owned_experts(entries, &assignment) {
        Ok((owned, bytes)) => {
            let replicated: usize = replicated_parameter_bytes(parameters, kind);
            Ok(
                (
                    owned,
                    ExpertParallelInfo::cached(
                        topology,
                        kind,
                        assignment,
                        bytes,
                        replicated,
                        opened_checkpoint_shards,
                    ),
                ),
            )
        },
        Err(error) => Err(error),
    }
}

/// Last step of loading a model whose experts are resident: no tensor may be left over,
/// the banks are cut down to this rank, and the description counts what they then take.
/// `replicated` lists the parameters outside the banks.
pub fn finish_resident_ep(
    topology: &ParallelTopology,
    kind: ModelKind,
    assignment: ExpertAssignment,
    leftover: Vec<String>,
    banks: Vec<ExpertBank>,
    replicated: &Vec<ParameterSize>,
    opened_checkpoint_shards: Vec<String>,
) -> (outcome: Result<(Vec<ExpertBank>, ExpertParallelInfo), Error>)
    requires
        forall|i: int|
            0 <= i < banks@.len() ==> crate::expert_parallel::banks::bank_wf(
                #[trigger] banks@[i],
            ),
        crate::expert_parallel::banks::banks_bytes(banks@) + parameter_total(replicated@)
            <= usize::MAX,
    ensures
        crate::error::failed(outcome) == (if leftover@.len() > 0 {
            Some(
                Failure::StrictLoadValidation(
                    Seq::empty(),
                    crate::error::texts(leftover@).sort_by(crate::order::by_text()),
                ),
            )
        } else {
            crate::expert_parallel::banks::banks_failure(banks@, assignment@, 0)
        }),
        outcome matches Ok((local, info)) ==> {
            let routed = crate::expert_parallel::banks::banks_bytes(local@);
            let shared = parameter_total(replicated@);
            &&& local@.len() == banks@.len()
            &&& forall|i: int|
                0 <= i < local@.len() ==> crate::expert_parallel::banks::is_finalized(
                    #[trigger] local@[i],
                    banks@[i],
                    assignment@,
                )
            &&& info == (ExpertParallelInfo {
                global_rank: topology.global_rank,
                expert_parallel_rank: topology.expert_parallel_rank,
                expert_parallel_size: topology.expert_parallel_size,
                model_kind: kind,
                assignment,
                local_parameter_bytes: (routed + shared) as usize,
                routed_expert_bytes: routed as usize,
                owned_expert_bytes: routed as usize,
                replicated_parameter_bytes: shared as usize,
                opened_checkpoint_shards,
                exchange_strategy: ExpertExchangeStrategy::ReplicatedInputAllSum,
            })
        },
{
    proof {
        totals_grow(replicated@, kind, replicated@.len() as int);
        assert(replicated@.take(replicated@.len() as int) =~= replicated@);
        crate::expert_parallel::banks::banks_bytes_grow(banks@, banks@.len() as int);
        assert(banks@.take(banks@.len() as int) =~= banks@);
    }
    match ensure_no_unused_tensors(leftover) {
        Ok(_) => {},
        Err(error) => {
            return Err(error);
        },
    }
    match finalize_expert_banks(banks, &assignment) {
        Ok((local, routed)) => {
            let shared: usize = parameter_bytes(replicated);
            Ok(
                (
                    local,
                    ExpertParallelInfo::resident(
                        topology,
                        kind,
                        assignment,
                        routed + shared,
                        routed,
                        opened_checkpoint_shards,
                    ),
                ),
            )
        },
        Err(error) => Err(error),
    }
}

/// A topology is purely expert-parallel exactly where several ranks share the experts,
/// each rank of the world is one of them, and nothing else is split.
pub proof fn accepted_topologies_split_only_experts(topology: ParallelTopology)
    ensures
        pure_expert_failure(topology) is None <==> {
            &&& topology.expert_parallel_size >= 2
            &&& topology.tensor_parallel_size == 1
            &&& topology.pipeline_parallel_size == 1
            &&& topology.world_size == topology.expert_parallel_size
        },
{
}

/// Which model types are loaded, and how: model types of one family share their loader,
/// and any other model type has none.
pub proof fn model_types_choose_their_loader(model_type: Seq<char>)
    ensures
        loader_failure(Some(model_type)) is None <==> loader_of(model_type) is Some,
        loader_failure(None) is Some,
        loader_of(model_type) == Some(ExpertLoader::DeepSeek) <==> model_type == "deepseek_v3"@,
        loader_of(model_type) == Some(ExpertLoader::Qwen3) <==> model_type == "qwen3"@ || model_type
            == "qwen3_moe"@,
        loader_of(model_type) == Some(ExpertLoader::Additional(ModelKind::GptOss)) <==> model_type
            == "gpt_oss"@,
        loader_of(model_type) == Some(ExpertLoader::Additional(ModelKind::Inkling)) <==> model_type
            == "inkling_mm_model"@,
        loader_of(model_type) == Some(ExpertLoader::Additional(ModelKind::Lfm2)) <==> model_type
            == "lfm2"@ || model_type == "lfm2_moe"@,
        loader_of(model_type) == Some(ExpertLoader::Additional(ModelKind::NemotronH))
            <==> model_type == "nemotron_h"@,
        loader_of(model_type) == Some(ExpertLoader::Additional(ModelKind::Qwen3Next))
            <==> model_type == "qwen3_next"@,
        loader_of(model_type) == Some(ExpertLoader::Additional(ModelKind::Qwen3VlMoe))
            <==> model_type == "qwen3_vl_moe"@ || model_type == "qwen3_vl_moe_text"@,
        loader_of(model_type) == Some(ExpertLoader::Additional(ModelKind::Qwen35Moe))
            <==> model_type == "qwen3_5"@ || model_type == "qwen3_5_text"@ || model_type
            == "qwen3_5_moe"@ || model_type == "qwen3_5_moe_text"@,
        loader_of(model_type) matches Some(ExpertLoader::Additional(kind)) ==> !(kind is DeepSeekV3)
            && !(kind is Qwen3),
{
    reveal_strlit("deepseek_v3");
    reveal_strlit("qwen3");
    reveal_strlit("qwen3_moe");
    reveal_strlit("gpt_oss");
    reveal_strlit("inkling_mm_model");
    reveal_strlit("lfm2");
    reveal_strlit("lfm2_moe");
    reveal_strlit("nemotron_h");
    reveal_strlit("qwen3_next");
    reveal_strlit("qwen3_vl_moe");
    reveal_strlit("qwen3_vl_moe_text");
    reveal_strlit("qwen3_5");
    reveal_strlit("qwen3_5_text");
    reveal_strlit("qwen3_5_moe");
    reveal_strlit("qwen3_5_moe_text");
    assert("deepseek_v3"@[0] == 'd' && "gpt_oss"@[0] == 'g' && "inkling_mm_model"@[0] == 'i'
        && "lfm2"@[0] == 'l' && "lfm2_moe"@[0] == 'l' && "nemotron_h"@[0] == 'n');
    assert("qwen3"@[0] == 'q' && "qwen3_moe"@[0] == 'q' && "qwen3_next"@[0] == 'q'
        && "qwen3_vl_moe"@[0] == 'q' && "qwen3_vl_moe_text"@[0] == 'q' && "qwen3_5"@[0] == 'q'
        && "qwen3_5_text"@[0] == 'q' && "qwen3_5_moe"@[0] == 'q' && "qwen3_5_moe_text"@[0] == 'q');
    assert("qwen3"@.len() == 5 && "qwen3_next"@.len() == 10 && "qwen3_vl_moe"@.len() == 12
        && "qwen3_vl_moe_text"@.len() == 17 && "qwen3_5"@.len() == 7 && "qwen3_5_text"@.len() == 12
        && "qwen3_5_moe"@.len() == 11 && "qwen3_5_moe_text"@.len() == 16);
    assert("qwen3_moe"@[6] == 'm' && "qwen3_next"@[6] == 'n' && "qwen3_vl_moe"@[6] == 'v'
        && "qwen3_vl_moe_text"@[6] == 'v' && "qwen3_5"@[6] == '5' && "qwen3_5_text"@[6] == '5'
        && "qwen3_5_moe"@[6] == '5' && "qwen3_5_moe_text"@[6] == '5');
}

/// The assignment that a model is loaded with is one for its experts, its group and its
/// rank, and gives the rank an expert; one that was supplied is taken as it is.
pub proof fn resolved_assignments_fit_the_model(
    supplied: Option<Ownership>,
    global_experts: usize,
    topology: ParallelTopology,
)
    requires
        resolution_failure(supplied, global_experts, topology) is None,
    ensures
        ({
            let table = resolved_table(supplied, global_experts, topology);
            &&& table.owners.len() == global_experts
            &&& table.group_size == topology.expert_parallel_size
            &&& table.rank == topology.expert_parallel_rank
            &&& table.local_experts().len() > 0
            &&& supplied is Some ==> table == supplied->Some_0
        }),
{
}

/// A supplied assignment is refused only for one of these causes.
pub proof fn fitting_assignments_are_accepted(
    table: Ownership,
    global_experts: usize,
    topology: ParallelTopology,
)
    ensures
        resolution_failure(Some(table), global_experts, topology) is None <==> {
            &&& table.owners.len() == global_experts
            &&& table.group_size == topology.expert_parallel_size
            &&& table.rank == topology.expert_parallel_rank
            &&& table.local_experts().len() > 0
        },
{
}

/// A model without a supplied assignment can be loaded wherever there is an expert for
/// every rank, and its experts are then contiguous.
pub proof fn unassigned_experts_are_balanced(
    global_experts: usize,
    topology: ParallelTopology,
    left: int,
    right: int,
)
    requires
        topology.expert_parallel_rank < topology.expert_parallel_size <= global_experts
            <= i32::MAX,
        0 <= left <= right < global_experts,
    ensures
        resolution_failure(None, global_experts, topology) is None,
        ({
            let owners = resolved_table(None, global_experts, topology).owners;
            owners[left] <= owners[right]
        }),
{
    let size = topology.expert_parallel_size as int;
    let table = balanced_table(global_experts, topology);
    crate::expert_parallel::assignment::balanced_experts_are_contiguous_and_even(
        global_experts as int,
        size,
        left,
        right,
        0,
        0,
    );
    crate::expert_parallel::assignment::balanced_shares_are_even(
        global_experts as int,
        size,
        size,
        table.rank,
    );
    assert(global_experts as int / size >= 1) by (nonlinear_arith)
        requires
            0 < size <= global_experts,
    ;
    crate::expert_parallel::assignment::owned_experts_are_counted(
        table.owners,
        table.rank,
        table.owners.len() as int,
    );
}

/// Which always-cached architectures are loaded: those with routed experts.
pub proof fn accepted_architectures_route(
    kind: ModelKind,
    name: Seq<char>,
    config: AdditionalArchitecture,
)
    ensures
        additional_failure(kind, name, config) is None ==> !(kind is DeepSeekV3) && !(
        kind is Qwen3),
        kind is GptOss ==> additional_failure(kind, name, config) is None,
        kind is Inkling ==> (additional_failure(kind, name, config) is None
            <==> config.routed_experts > 0 && config.has_moe_layers),
        (kind is Lfm2 || kind is NemotronH || kind is Qwen3Next || kind is Qwen35Moe
            || kind is Qwen3VlMoe) ==> (additional_failure(kind, name, config) is None
            <==> config.has_moe_layers),
{
}

/// Parameters below the routed experts of an architecture are cached, whatever layer and
/// expert they belong to.
pub proof fn expert_parameters_are_cached(kind: ModelKind, layer: Seq<char>, name: Seq<char>)
    ensures
        (kind is Inkling || kind is NemotronH) ==> cached_parameter(
            kind,
            layer + ".moe.experts."@ + name,
        ),
        kind is Lfm2 ==> cached_parameter(kind, layer + ".feed_forward.experts."@ + name),
        (kind is DeepSeekV3 || kind is GptOss || kind is Qwen3 || kind is Qwen3VlMoe)
            ==> cached_parameter(kind, layer + ".mlp.experts."@ + name),
        (kind is Qwen3Next || kind is Qwen35Moe) ==> cached_parameter(
            kind,
            "model.layers."@ + layer + ".mlp.experts."@ + name,
        ),
        (kind is Qwen3Next || kind is Qwen35Moe) && !("model.layers."@).is_prefix_of(name)
            ==> !cached_parameter(kind, name),
{
    crate::text::enclosed_patterns_occur(layer, ".moe.experts."@, name);
    crate::text::enclosed_patterns_occur(layer, ".feed_forward.experts."@, name);
    crate::text::enclosed_patterns_occur(layer, ".mlp.experts."@, name);
    crate::text::enclosed_patterns_occur("model.layers."@ + layer, ".mlp.experts."@, name);
    let key = "model.layers."@ + layer + ".mlp.experts."@ + name;
    assert("model.layers."@.is_prefix_of(key));
}

/// Parameters of no expert are never cached: a name without `.experts.` is replicated in
/// every architecture.
pub proof fn other_parameters_are_replicated(kind: ModelKind, name: Seq<char>)
    requires
        !crate::text::occurs(name, ".experts."@),
    ensures
        !cached_parameter(kind, name),
{
    reveal_strlit(".experts.");
    reveal_strlit(".moe.experts.");
    reveal_strlit(".feed_forward.experts.");
    reveal_strlit(".mlp.experts.");
    crate::text::parts_of_patterns_occur(name, ".moe.experts."@, ".experts."@, 4);
    crate::text::parts_of_patterns_occur(name, ".feed_forward.experts."@, ".experts."@, 13);
    crate::text::parts_of_patterns_occur(name, ".mlp.experts."@, ".experts."@, 4);
}

/// Bytes of parameters add up, and the replicated ones are those of the parameters that
/// are not cached.
pub proof fn replicated_bytes_leave_out_the_cached(
    parameters: Seq<ParameterSize>,
    next: ParameterSize,
    kind: ModelKind,
)
    ensures
        parameter_total(Seq::empty()) == 0,
        replicated_total(Seq::empty(), kind) == 0,
        parameter_total(parameters.push(next)) == parameter_total(parameters) + next.bytes,
        cached_parameter(kind, next.name@) ==> replicated_total(parameters.push(next), kind)
            == replicated_total(parameters, kind),
        !cached_parameter(kind, next.name@) ==> replicated_total(parameters.push(next), kind)
            == replicated_total(parameters, kind) + next.bytes,
        replicated_total(parameters, kind) <= parameter_total(parameters),
    decreases parameters.len(),
{
    assert(parameters.push(next).drop_last() =~= parameters);
    if parameters.len() > 0 {
        replicated_bytes_leave_out_the_cached(parameters.drop_last(), parameters.last(), kind);
    }
}

/// The layers that may stay unused are those that follow the decoder's own, one after
/// another.
pub proof fn unused_layers_follow_the_decoder(num_hidden_layers: int, extra_layers: int, i: int)
    requires
        0 <= num_hidden_layers,
        0 <= i < extra_layers,
    ensures
        unused_prefixes(num_hidden_layers, extra_layers).len() == extra_layers,
        unused_prefixes(num_hidden_layers, extra_layers)[i] == "model.layers."@
            + crate::text::decimal((num_hidden_layers + i) as nat) + "."@,
{
}

/// A tensor of a split expert is loaded exactly by the rank that owns the expert, and any
/// other tensor by every rank under its own name.
pub proof fn split_experts_are_loaded_by_their_owner(name: Seq<char>, table: Ownership)
    ensures
        crate::expert_parallel::placement::split_expert(name) is None ==> loaded_name(name, table)
            == Some(name),
        crate::expert_parallel::placement::split_expert(name) matches Some(global) ==> (loaded_name(
            name,
            table,
        ) is Some <==> global < table.owners.len() && table.owners[global] == table.rank),
{
}

/// A repeated key is found exactly where two keys are the same, and the one found equals
/// an earlier one.
pub proof fn repeated_keys_are_found(keys: Seq<Seq<char>>, from: int)
    requires
        0 <= from,
    ensures
        first_repeated(keys, from) is None <==> forall|i: int, j: int|
            from <= j < keys.len() && 0 <= i < j ==> (#[trigger] keys[i]) != (#[trigger] keys[j]),
        first_repeated(keys, from) matches Some(at) ==> exists|i: int|
            0 <= i < at < keys.len() && #[trigger] keys[i] == keys[at],
    decreases keys.len() - from,
{
    if from < keys.len() {
        repeated_keys_are_found(keys, from + 1);
        let earlier = keys.take(from);
        if earlier.contains(keys[from]) {
            let i = choose|i: int| 0 <= i < earlier.len() && earlier[i] == keys[from];
            assert(keys[i] == keys[from]);
        } else {
            assert forall|i: int| 0 <= i < from implies (#[trigger] keys[i]) != keys[from] by {
                assert(earlier[i] == keys[i]);
            }
        }
    }
}

/// A rank keeps exactly the catalog entries of the experts that it owns, each as often as
/// it is listed and in order.
pub proof fn ranks_keep_their_own_entries(
    entries: Seq<ExpertCatalogEntry>,
    next: ExpertCatalogEntry,
    table: Ownership,
)
    ensures
        owned_entries(Seq::empty(), table) == Seq::<ExpertCatalogEntry>::empty(),
        ({
            let global = next.expert().global_expert as int;
            owned_entries(entries.push(next), table) == if global < table.owners.len()
                && table.owners[global] == table.rank {
                owned_entries(entries, table).push(next)
            } else {
                owned_entries(entries, table)
            }
        }),
        catalog_bytes(Seq::empty()) == 0,
        catalog_bytes(entries.push(next)) == catalog_bytes(entries) + next.size(),
{
    assert(entries.push(next).drop_last() =~= entries);
}

/// Always-cached architectures load exactly where their experts stay in a cache and their
/// weights are as the checkpoint has them.
pub proof fn cached_loads_keep_experts_remote(
    quantization: bool,
    residency: WeightResidency,
    name: Seq<char>,
)
    ensures
        cached_load_failure(quantization, residency, name) is None <==> !quantization
            && residency is SparseExpertCache,
{
}

/// A cached load ends well exactly where no tensor is left over and the bytes of the own
/// experts can be counted.
pub proof fn finished_loads_leave_nothing_over(
    leftover: Seq<Seq<char>>,
    entries: Seq<ExpertCatalogEntry>,
    table: Ownership,
)
    ensures
        cached_finish_failure(leftover, entries, table) is None <==> leftover.len() == 0
            && catalog_bytes(owned_entries(entries, table)) <= usize::MAX,
{
}

/// Experts are resident with everything else or cached with their own options; weights
/// that stream layer by layer are refused.
pub proof fn experts_are_resident_or_cached(
    residency: WeightResidency,
    chosen: Result<Option<ExpertCacheLoadOptions>, Error>,
)
    requires
        call_ensures(choose_expert_residency, (&residency,), chosen),
    ensures
        chosen is Ok <==> residency is FullyResident || residency is SparseExpertCache,
        residency is FullyResident ==> chosen->Ok_0 is None,
        residency is SparseExpertCache ==> chosen->Ok_0 == Some(residency->SparseExpertCache_0),
{
}

/// A configuration is loaded exactly where it has routed experts, and with as many as it
/// says; native eight-bit weights are not quantized again.
pub proof fn configurations_need_routed_experts(
    n_routed_experts: i32,
    quantization: bool,
    native_fp8: bool,
    deepseek: Result<usize, Error>,
    num_experts: i32,
    qwen: Result<usize, Error>,
)
    requires
        call_ensures(
            check_deepseek_config,
            (n_routed_experts, quantization, native_fp8),
            deepseek,
        ),
        call_ensures(check_qwen3_config, (num_experts,), qwen),
    ensures
        deepseek is Ok <==> n_routed_experts >= 1 && !(quantization && native_fp8),
        deepseek is Ok ==> deepseek->Ok_0 == n_routed_experts,
        qwen is Ok <==> num_experts >= 1,
        qwen is Ok ==> qwen->Ok_0 == num_experts,
{
}

/// Backbone tensors are loaded as the model's own, and every other key stays.
pub proof fn backbone_keys_are_the_models(key: &str, rest: Seq<char>, renamed: String)
    requires
        call_ensures(rename_backbone_key, (key,), renamed),
    ensures
        key@ == "backbone."@ + rest ==> renamed@ == "model."@ + rest,
        !("backbone."@).is_prefix_of(key@) ==> renamed@ == key@,
{
    if key@ == "backbone."@ + rest {
        assert("backbone."@.is_prefix_of(key@));
        assert(key@.skip("backbone."@.len() as int) =~= rest);
    }
}

/// A load starts exactly with a purely expert-parallel topology from a safetensors
/// checkpoint.
pub proof fn loads_start_with_a_pure_topology(
    parallel: Option<ParallelTopology>,
    begun: Result<ParallelTopology, Error>,
    is_gguf: bool,
    format: Result<(), Error>,
)
    requires
        call_ensures(begin_load, (parallel,), begun),
        call_ensures(check_checkpoint_format, (is_gguf,), format),
    ensures
        begun is Ok <==> parallel is Some && parallel->Some_0.expert_parallel_size >= 2
            && parallel->Some_0.tensor_parallel_size == 1
            && parallel->Some_0.pipeline_parallel_size == 1 && parallel->Some_0.world_size
            == parallel->Some_0.expert_parallel_size,
        begun is Ok ==> Some(begun->Ok_0) == parallel,
        format is Ok <==> !is_gguf,
{
}

/// The bytes of a resident rank are those of its own experts and those that every rank
/// has; nothing of it is cached.
pub proof fn resident_ranks_hold_experts_and_the_rest(
    topology: ParallelTopology,
    kind: ModelKind,
    assignment: ExpertAssignment,
    leftover: Vec<String>,
    banks: Vec<ExpertBank>,
    replicated: Vec<ParameterSize>,
    opened: Vec<String>,
    outcome: Result<(Vec<ExpertBank>, ExpertParallelInfo), Error>,
)
    requires
        call_ensures(
            finish_resident_ep,
            (&topology, kind, assignment, leftover, banks, &replicated, opened),
            outcome,
        ),
        outcome is Ok,
        crate::expert_parallel::banks::banks_bytes(outcome->Ok_0.0@) >= 0,
        crate::expert_parallel::banks::banks_bytes(outcome->Ok_0.0@) + parameter_total(replicated@)
            <= usize::MAX,
    ensures
        ({
            let info = outcome->Ok_0.1;
            &&& leftover@.len() == 0
            &&& info.local_parameter_bytes == info.routed_expert_bytes
                + info.replicated_parameter_bytes
            &&& info.routed_expert_bytes == crate::expert_parallel::banks::banks_bytes(
                outcome->Ok_0.0@,
            )
            &&& info.owned_expert_bytes == info.routed_expert_bytes
            &&& info.replicated_parameter_bytes == parameter_total(replicated@)
            &&& info.expert_parallel_rank == topology.expert_parallel_rank
            &&& info.expert_parallel_size == topology.expert_parallel_size
            &&& info.global_rank == topology.global_rank
        }),
{
    parameters_are_natural(replicated@);
}

proof fn parameters_are_natural(parameters: Seq<ParameterSize>)
    ensures
        parameter_total(parameters) >= 0,
    decreases parameters.len(),
{
    if parameters.len() > 0 {
        parameters_are_natural(parameters.drop_last());
    }
}

/// The bytes of a cached rank are those that every rank has; its experts are owned but
/// not among them.
pub proof fn cached_ranks_hold_only_the_rest(
    topology: ParallelTopology,
    kind: ModelKind,
    assignment: ExpertAssignment,
    leftover: Vec<String>,
    entries: Vec<ExpertCatalogEntry>,
    parameters: Vec<ParameterSize>,
    opened: Vec<String>,
    outcome: Result<(Vec<ExpertCatalogEntry>, ExpertParallelInfo), Error>,
)
    requires
        call_ensures(
            finish_additional_cached_ep,
            (&topology, kind, assignment, leftover, entries, &parameters, opened),
            outcome,
        ),
        outcome is Ok,
    ensures
        ({
            let info = outcome->Ok_0.1;
            &&& leftover@.len() == 0
            &&& info.local_parameter_bytes == info.replicated_parameter_bytes
            &&& info.routed_expert_bytes == 0
            &&& outcome->Ok_0.0@ == owned_entries(entries@, assignment@)
            &&& info.expert_parallel_rank == topology.expert_parallel_rank
            &&& info.expert_parallel_size == topology.expert_parallel_size
            &&& info.global_rank == topology.global_rank
        }),
{
    assert(crate::error::texts(leftover@).len() == leftover@.len());
}

/// Experts of an always-cached architecture are assigned exactly where the architecture
/// is loaded and the assignment can be resolved for its routed experts.
pub proof fn routed_experts_are_assigned(
    kind: ModelKind,
    name: Seq<char>,
    config: AdditionalArchitecture,
    supplied: Option<Ownership>,
    topology: ParallelTopology,
)
    ensures
        additional_assignment_failure(kind, name, config, supplied, topology) is None
            <==> additional_failure(kind, name, config) is None && resolution_failure(
            supplied,
            config.routed_experts as usize,
            topology,
        ) is None,
{
}

} // verus!
