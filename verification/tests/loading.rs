use safemlx_lm::array::Dtype;
use safemlx_lm::cache_residency::block::{CacheArray, CacheBlockArrays};
use safemlx_lm::cache_residency::catalog::CacheResidencyManager;
use safemlx_lm::cache_residency::manifest::expected_rank;
use safemlx_lm::cache_residency::open::ShardMapping;
use safemlx_lm::cache_residency::options::{CacheResidencyPolicy, PagedCacheOptions};
use safemlx_lm::cache_residency::prompt::{PromptCacheDescriptor, PromptCacheOptions};
use safemlx_lm::dense_stream::DenseDiskStreamLoadOptions;
use safemlx_lm::error::{format_keys, Error};
use safemlx_lm::expert_cache::acquire::{AcquiredExperts, ExpertCache, RoutePlan};
use safemlx_lm::expert_cache::report::ResidencyReport;
use safemlx_lm::expert_cache::catalog::{
    catalog_experts, ExpertCacheLoadOptions, ExpertCatalogEntry, ExpertIdentity, ExpertPass,
};
use safemlx_lm::expert_cache::error::ExpertCacheError;
use safemlx_lm::expert_parallel::assignment::ExpertAssignment;
use safemlx_lm::expert_parallel::banks::{
    bank_bindings, finalize_expert_banks, gather_bank, quantized_bank_keys, BankTensor, ExpertBank,
};
use safemlx_lm::expert_parallel::caches::{CacheKind, ExpertParallelCache};
use safemlx_lm::expert_parallel::exchange::{sharded_statistics, ShardedTimings};
use safemlx_lm::expert_parallel::loading::{
    additional_experts, assign_additional_experts, check_cached_quantization,
    check_deepseek_config, check_qwen3_config, check_transformed_keys, choose_expert_residency,
    ensure_no_unused_tensors, finish_additional_cached_ep, finish_resident_ep,
    is_cached_parameter, localize_layer_expert_name, localize_tensor_name, parameter_bytes,
    plan_additional_cached_load, rename_backbone_key, replicated_parameter_bytes, select_loader,
    unused_layer_prefixes, AdditionalArchitecture, ExpertParallelInfo, ParallelTopology,
    ParameterSize, WeightResidency,
};
use safemlx_lm::expert_parallel::model::{
    CachePlan, ExpertArchitecture, ExpertParallelModel, ForwardPlan, MtpCapability,
    MtpCheckpointKind,
};
use safemlx_lm::expert_parallel::placement::{
    expert_cache_base_plan, expert_placement_plan, is_qwen_hybrid_decoder_expert_key,
    slice_axis_zero, split_expert_id, ModelKind, TensorPlacement,
};
use safemlx_lm::expert_parallel::routes::{
    check_group, compact_local_routes, finish_dispatch, DispatchTimings, ExpertIds, HiddenStates,
    RouteWeights,
};
use safemlx_lm::expert_parallel::serving::plan_cached_routes;
use safemlx_lm::expert_parallel::statistics::RoutingStatistics;
use safemlx_lm::offload::{CacheEvictionPolicy, LayerwiseLoadOptions, OffloadConfig, OffloadUnit};

fn topology() -> ParallelTopology {
    ParallelTopology {
        world_size: 2,
        global_rank: 1,
        tensor_parallel_size: 1,
        pipeline_parallel_size: 1,
        expert_parallel_size: 2,
        expert_parallel_rank: 1,
    }
}

fn cache_options() -> ExpertCacheLoadOptions {
    let config = OffloadConfig {
        device_budget_bytes: Some(64),
        host_budget_bytes: Some(0),
        prefetch_units: 1,
        eviction_policy: CacheEvictionPolicy::LeastRecentlyUsed,
    };
    let non_expert = LayerwiseLoadOptions { offload: config, max_mapped_shards: 2 };
    ExpertCacheLoadOptions::new(non_expert, config, 64).unwrap()
}

fn texts(names: &[&str]) -> Vec<String> {
    names.iter().map(|name| name.to_string()).collect()
}

fn sizes(parameters: &[(&str, usize)]) -> Vec<ParameterSize> {
    parameters
        .iter()
        .map(|(name, bytes)| ParameterSize { name: name.to_string(), bytes: *bytes })
        .collect()
}

fn model(architecture: ExpertArchitecture, kind: ModelKind) -> ExpertParallelModel<()> {
    let assignment = ExpertAssignment::balanced(4, 2, 1).unwrap();
    let info = ExpertParallelInfo::cached(&topology(), kind, assignment, 40, 60, vec![]);
    ExpertParallelModel::new(topology(), info, architecture, None)
}

#[test]
fn residencies_choose_the_loader() {
    assert_eq!(choose_expert_residency(&WeightResidency::FullyResident).unwrap(), None);
    assert_eq!(
        choose_expert_residency(&WeightResidency::SparseExpertCache(cache_options())).unwrap(),
        Some(cache_options())
    );
    let streamed = WeightResidency::DenseDiskStream(DenseDiskStreamLoadOptions::default());
    assert!(matches!(choose_expert_residency(&streamed), Err(Error::Parallel(_))));
    assert!(matches!(check_cached_quantization(true), Err(Error::Quantization(_))));
    assert!(check_cached_quantization(false).is_ok());
}

#[test]
fn configurations_need_routed_experts() {
    assert_eq!(check_deepseek_config(4, false, true).unwrap(), 4);
    assert!(matches!(check_deepseek_config(0, false, false), Err(Error::Parallel(_))));
    assert!(matches!(check_deepseek_config(4, true, true), Err(Error::Quantization(_))));
    assert_eq!(check_qwen3_config(8).unwrap(), 8);
    assert!(check_qwen3_config(0).is_err());
    let moe = AdditionalArchitecture { routed_experts: 4, has_moe_layers: true };
    let dense = AdditionalArchitecture { routed_experts: 0, has_moe_layers: false };
    for kind in [
        ModelKind::Inkling,
        ModelKind::Lfm2,
        ModelKind::NemotronH,
        ModelKind::Qwen3Next,
        ModelKind::Qwen3VlMoe,
    ] {
        assert_eq!(additional_experts(kind, "model", moe).unwrap(), 4);
        assert!(matches!(
            additional_experts(kind, "model", dense),
            Err(Error::UnsupportedArchitecture(_))
        ));
    }
    assert!(additional_experts(ModelKind::Qwen3, "qwen3", moe).is_err());
    let negative = AdditionalArchitecture { routed_experts: -1, has_moe_layers: true };
    assert!(matches!(
        additional_experts(ModelKind::Inkling, "inkling", negative),
        Err(Error::Parallel(_))
    ));
}

#[test]
fn loader_messages_name_the_model_type() {
    let error = select_loader(br#"{"model_type":"llama"}"#).unwrap_err();
    assert!(matches!(&error, Error::UnsupportedArchitecture(text) if text.ends_with("not llama")));
    let error = select_loader(br#"{"hidden_size":8}"#).unwrap_err();
    assert!(error.message().contains("missing model_type"));
    assert!(matches!(select_loader(b"{not-json"), Err(Error::Deserialize(_))));
}

#[test]
fn cached_architectures_are_loaded_in_three_steps() {
    let sparse = WeightResidency::SparseExpertCache(cache_options());
    let keys = texts(&[
        "model.layers.0.mlp.experts.1.down_proj.weight",
        "model.embed_tokens.weight",
    ]);
    let (options, plan) =
        plan_additional_cached_load(false, &sparse, ModelKind::Qwen3Next, "qwen3_next", &keys).unwrap();
    assert_eq!(options, cache_options());
    assert_eq!(plan.len(), 1);
    assert_eq!(plan[0].key, keys[0]);
    assert_eq!(plan[0].placement, TensorPlacement::Omit);
    assert!(plan_additional_cached_load(true, &sparse, ModelKind::Qwen3Next, "q", &keys).is_err());
    let resident = WeightResidency::FullyResident;
    let error =
        plan_additional_cached_load(false, &resident, ModelKind::Lfm2, "lfm2", &keys).unwrap_err();
    assert!(error.message().contains("lfm2 expert-parallel execution requires"));

    let config = AdditionalArchitecture { routed_experts: 4, has_moe_layers: true };
    let assignment =
        assign_additional_experts(ModelKind::Qwen3Next, "qwen3_next", config, None, &topology())
            .unwrap();
    assert_eq!(assignment.local_global_expert_ids(), &[2, 3]);

    let entries = |experts: usize| {
        (0..experts)
            .map(|expert| {
                let identity = ExpertIdentity::new(0, expert);
                let unit = OffloadUnit { id: identity.unit_id(), bindings: vec![] };
                ExpertCatalogEntry::new(identity, unit, 8).unwrap()
            })
            .collect::<Vec<_>>()
    };
    let parameters = sizes(&[("model.layers.0.mlp.experts.w", 100), ("model.norm.weight", 4)]);
    let (owned, info) = finish_additional_cached_ep(
        &topology(),
        ModelKind::Qwen3Next,
        assignment.clone(),
        vec![],
        entries(4),
        &parameters,
        texts(&["model.safetensors"]),
    )
    .unwrap();
    assert_eq!(owned.len(), 2);
    assert_eq!(info.owned_expert_bytes, 16);
    assert_eq!(info.replicated_parameter_bytes, 4);
    assert_eq!(info.routed_expert_bytes, 0);
    let leftover = finish_additional_cached_ep(
        &topology(),
        ModelKind::Qwen3Next,
        assignment,
        texts(&["b", "a"]),
        entries(4),
        &parameters,
        vec![],
    );
    assert!(matches!(
        leftover,
        Err(Error::StrictLoadValidation { unused, .. }) if unused == texts(&["a", "b"])
    ));
}

#[test]
fn resident_loads_count_their_banks() {
    let assignment = ExpertAssignment::round_robin(4, 2, 1).unwrap();
    let bank = |experts: i32| ExpertBank {
        num_experts: experts,
        tensors: vec![Some(BankTensor { rows: experts as usize, row_bytes: 6 }), None],
    };
    let (banks, bytes) = finalize_expert_banks(vec![bank(4), bank(2)], &assignment).unwrap();
    assert_eq!(bytes, 24);
    assert!(banks.iter().all(|bank| bank.num_experts == 2));
    let (_, info) = finish_resident_ep(
        &topology(),
        ModelKind::Qwen3,
        assignment.clone(),
        vec![],
        vec![bank(4)],
        &sizes(&[("norm", 10)]),
        vec![],
    )
    .unwrap();
    assert_eq!(info.routed_expert_bytes, 12);
    assert_eq!(info.local_parameter_bytes, 22);
    assert_eq!(info.replicated_parameter_bytes, 10);
    assert!(finalize_expert_banks(vec![bank(3)], &assignment).is_err());
    assert!(finish_resident_ep(
        &topology(),
        ModelKind::Qwen3,
        assignment,
        texts(&["stray"]),
        vec![],
        &vec![],
        vec![],
    )
    .is_err());
}

#[test]
fn parameters_are_counted_once() {
    let parameters = sizes(&[
        ("model.layers.0.mlp.experts.gate_up_proj", 7),
        ("model.layers.0.feed_forward.experts.w", 5),
        ("model.norm.weight", 2),
    ]);
    assert_eq!(parameter_bytes(&parameters), 14);
    assert_eq!(replicated_parameter_bytes(&parameters, ModelKind::Qwen3), 7);
    assert_eq!(replicated_parameter_bytes(&parameters, ModelKind::Lfm2), 9);
    assert!(is_cached_parameter(ModelKind::Inkling, "a.moe.experts.b"));
    assert!(!is_cached_parameter(ModelKind::Inkling, "a.mlp.experts.b"));
}

#[test]
fn names_move_to_the_owning_rank() {
    let assignment = ExpertAssignment::round_robin(4, 2, 1).unwrap();
    let name = "model.layers.3.mlp.experts.3.up_proj.weight".to_string();
    assert_eq!(split_expert_id(&name), Some(3));
    assert_eq!(
        localize_tensor_name(&name, &assignment).as_deref(),
        Some("model.layers.3.mlp.experts.1.up_proj.weight")
    );
    assert_eq!(
        localize_tensor_name(&"model.norm.weight".to_string(), &assignment).as_deref(),
        Some("model.norm.weight")
    );
    let remote = "model.layers.3.mlp.experts.2.up_proj.weight".to_string();
    assert_eq!(localize_tensor_name(&remote, &assignment), None);
    assert!(localize_layer_expert_name(&name, 3, &assignment).is_some());
    assert_eq!(localize_layer_expert_name(&name, 2, &assignment), None);
    assert_eq!(
        unused_layer_prefixes(61, 2),
        texts(&["model.layers.61.", "model.layers.62."])
    );
    assert!(unused_layer_prefixes(61, 0).is_empty());
    assert_eq!(rename_backbone_key("other.key"), "other.key");
    assert!(check_transformed_keys(&texts(&["a", "a"])).is_err());
    assert!(check_transformed_keys(&texts(&["a", "b"])).is_ok());
    assert!(ensure_no_unused_tensors(vec![]).is_ok());
}

#[test]
fn bundled_banks_are_sliced_by_ownership() {
    let contiguous = ExpertAssignment::balanced(4, 2, 1).unwrap();
    assert_eq!(
        slice_axis_zero(&contiguous),
        TensorPlacement::Range { axis: 0, start: 2, end: 4 }
    );
    let scattered = ExpertAssignment::round_robin(4, 2, 1).unwrap();
    assert_eq!(
        slice_axis_zero(&scattered),
        TensorPlacement::Indices { axis: 0, indices: vec![1, 3] }
    );
    let keys = texts(&["model.layers.0.mlp.experts.gate_up_proj", "model.norm.weight"]);
    let (plan, split) = expert_placement_plan(&keys, &contiguous);
    assert!(!split);
    assert!(plan.iter().any(|entry| {
        entry.key == keys[0]
            && entry.placement == TensorPlacement::Range { axis: 0, start: 2, end: 4 }
    }));
    let cached = expert_cache_base_plan(&keys, ModelKind::Qwen3);
    assert_eq!(cached.len(), 1);
    assert!(is_qwen_hybrid_decoder_expert_key("model.layers.1.mlp.experts.gate_up_proj"));
    assert!(!is_qwen_hybrid_decoder_expert_key("mtp.layers.1.mlp.experts.gate_up_proj"));
}

#[test]
fn compact_banks_need_complete_companions() {
    let bindings = bank_bindings(ModelKind::Qwen3);
    assert_eq!(bindings.len(), 6);
    assert_eq!((bindings[0].name.as_str(), bindings[0].required), ("gate_up_proj", true));
    assert_eq!((bindings[1].name.as_str(), bindings[1].required), ("gate_up_proj_scales", false));
    let plan = RoutePlan {
        layer: 0,
        identities: vec![ExpertIdentity::new(0, 0), ExpertIdentity::new(0, 1)],
        demand: vec![1, 1],
        compact_routes: vec![0, 1],
        route_shape: vec![2],
        scratch_bytes: 0,
    };
    let acquired = AcquiredExperts { plan, pass: ExpertPass::Decode, leases: vec![0, 1] };
    let none = vec![false, false];
    let all = vec![true, true];
    let gathered = gather_bank(
        &acquired,
        ModelKind::Qwen3,
        &vec![all.clone(), all.clone(), none.clone(), all.clone(), none.clone(), none.clone()],
    )
    .unwrap();
    assert_eq!(gathered, vec![true, true, false, true, false, false]);
    let uneven = gather_bank(
        &acquired,
        ModelKind::Qwen3,
        &vec![all.clone(), vec![true, false], none.clone(), all.clone(), none.clone(), none.clone()],
    );
    assert!(matches!(uneven, Err(ExpertCacheError::InconsistentCompanion { .. })));
    assert_eq!(acquired.optional_compact_binding("scales", &all).unwrap(), true);
    assert_eq!(acquired.optional_compact_binding("scales", &none).unwrap(), false);
    assert_eq!(quantized_bank_keys(1).len(), 2);
}

#[test]
fn dispatch_times_are_added() {
    let assignment = ExpertAssignment::balanced(4, 2, 1).unwrap();
    assert!(check_group(&assignment, 1, 2).is_ok());
    assert!(check_group(&assignment, 1, 3).is_err());
    let timings = DispatchTimings { compaction: 1, expert: 2, reduction: 3, total: 9 };
    let finished = finish_dispatch(RoutingStatistics::default(), timings);
    assert_eq!(finished.compaction_time, 1);
    assert_eq!(finished.expert_time, 2);
    assert_eq!(finished.reduction_time, 3);
    assert_eq!(finished.total_time, 9);
}

#[test]
fn paged_caches_follow_the_architecture() {
    let options = || PagedCacheOptions::new(16, 64, 64, 1).unwrap();
    let qwen = model(ExpertArchitecture::Qwen3 { layers: 2 }, ModelKind::Qwen3);
    match qwen.new_cache_with_options(CacheResidencyPolicy::Paged(options()), 9).unwrap() {
        CachePlan::Layers { manager, layers } => {
            assert_eq!(manager.session_id(), 9);
            assert_eq!(layers.len(), 2);
            assert_eq!(layers[1].layer, 1);
            assert_eq!(layers[1].rank.expert_parallel_rank, Some(1));
        }
        other => panic!("unexpected plan {:?}", other),
    }
    assert!(matches!(
        qwen.new_cache_with_options(CacheResidencyPolicy::Device, 9),
        Ok(CachePlan::Device)
    ));
    match qwen.new_qwen3_sliding_cache(4, options(), 9).unwrap() {
        CachePlan::Layers { layers, .. } => assert_eq!(layers[0].max_size, Some(4)),
        other => panic!("unexpected plan {:?}", other),
    }
    assert!(qwen.new_qwen3_sliding_cache(0, options(), 9).is_err());
    let hybrid = model(ExpertArchitecture::QwenHybrid { mtp_layers: 1 }, ModelKind::Qwen3Next);
    assert!(matches!(
        hybrid.new_cache_with_options(CacheResidencyPolicy::Paged(options()), 9),
        Err(Error::Parallel(_))
    ));
    let kept: ExpertParallelCache<u8, u32> = ExpertParallelCache::GptOss(5);
    let gpt = model(
        ExpertArchitecture::GptOss {
            model_type: "gpt_oss".into(),
            architecture_fingerprint: "sha256:y".into(),
            num_hidden_layers: 2,
            sliding_window: 128,
            num_key_value_heads: 2,
            head_dim: 64,
        },
        ModelKind::GptOss,
    );
    assert_eq!(gpt.cache_residency_report(&kept), Some(&5));
    assert_eq!(gpt.prompt_cache_architecture_fingerprint().unwrap(), "sha256:y");
    let manager = CacheResidencyManager::new(options(), 1);
    let plain: ExpertParallelCache<u8, CacheResidencyManager> = ExpertParallelCache::Lfm2(manager);
    assert!(gpt.cache_residency_report(&plain).is_none());
}

#[test]
fn prompt_caches_belong_to_their_rank_and_model() {
    let gpt = model(
        ExpertArchitecture::GptOss {
            model_type: "gpt_oss".into(),
            architecture_fingerprint: "sha256:y".into(),
            num_hidden_layers: 2,
            sliding_window: 128,
            num_key_value_heads: 2,
            head_dim: 64,
        },
        ModelKind::GptOss,
    );
    let identity = gpt.prompt_cache_model_identity().unwrap();
    let descriptor = PromptCacheDescriptor {
        model_family: identity.model_family.clone(),
        effective_model_type: identity.effective_model_type.clone(),
        checkpoint_fingerprint: "c".into(),
        architecture_fingerprint: identity.architecture_fingerprint.clone(),
        layer_count: identity.layer_count,
        global_layer_start: identity.global_layer_start,
        global_layer_end: identity.global_layer_end,
        batch_size: 1,
        sliding_window: identity.sliding_window,
        sink_tokens: identity.sink_tokens,
        topology: identity.topology,
    };
    assert_eq!(
        gpt.save_prompt_cache(CacheKind::GptOss, "/tmp/p", &descriptor).unwrap(),
        "/tmp/p/rank-00001"
    );
    assert!(gpt.save_prompt_cache(CacheKind::Lfm2, "/tmp/p", &descriptor).is_err());
    let mut other = descriptor.clone();
    other.architecture_fingerprint = "sha256:z".into();
    assert!(gpt.save_prompt_cache(CacheKind::GptOss, "/tmp/p", &other).is_err());
    let lfm = model(ExpertArchitecture::Lfm2, ModelKind::Lfm2);
    assert!(lfm.prompt_cache_model_identity().is_err());

    let options = || PagedCacheOptions::new(2, 4096, 4096, 1).unwrap();
    let mut manager = CacheResidencyManager::new(options(), 7);
    let array = |handle: u64| CacheArray {
        handle,
        shape: vec![1, 2, 2, 64],
        dtype: "Float32".into(),
        nbytes: 1024,
    };
    let rank = expected_rank(&descriptor.topology);
    for layer in 0..2 {
        let arrays = CacheBlockArrays::KeyValue { keys: array(1), values: array(2) };
        manager.begin_seal(layer, 0, 2, rank, arrays, false).unwrap();
        manager.finish_seal();
    }
    let digests = vec!["0".repeat(64), "1".repeat(64)];
    let saved = PromptCacheOptions::default();
    let manifest = manager.build_manifest(descriptor.clone(), &[4, 5], &saved, &digests);
    let mappings = vec![ShardMapping::Mapped, ShardMapping::Mapped];
    let directory = gpt.prompt_cache_rank_directory("/tmp/p");
    let (opened, opened_rank) = gpt
        .load_prompt_cache(
            &directory, &descriptor, &manifest, &[4, 5], options(), 9, &mappings,
        )
        .unwrap();
    assert_eq!(Some(opened_rank), rank);
    assert_eq!(opened.session_id, 9);
    assert_eq!(opened.blocks.len(), 2);
    assert_eq!(opened.report.prompt_cache_loads, 1);
    assert!(matches!(
        gpt.load_prompt_cache(
            &directory, &other, &manifest, &[4, 5], options(), 9, &mappings,
        ),
        Err(Error::Parallel(_))
    ));
    assert!(matches!(
        gpt.load_prompt_cache(
            &directory, &descriptor, &manifest, &[4, 6], options(), 9, &mappings,
        ),
        Err(Error::Parallel(_))
    ));
}

#[test]
fn embedded_heads_belong_to_hybrid_models() {
    let hybrid = model(ExpertArchitecture::QwenHybrid { mtp_layers: 1 }, ModelKind::Qwen3Next);
    assert_eq!(
        hybrid.mtp_capability(),
        MtpCapability::Ready { checkpoint: MtpCheckpointKind::Embedded }
    );
    assert_eq!(hybrid.mtp_layer_count(), 1);
    assert!(hybrid.check_mtp_drafter().is_ok());
    assert_eq!(
        hybrid.begin_embedded_mtp(1, 2, 1, "qwen3_next", CacheKind::QwenHybrid).unwrap(),
        true
    );
    assert!(hybrid.begin_embedded_mtp(0, 2, 1, "qwen3_next", CacheKind::QwenHybrid).is_err());
    assert!(hybrid.begin_embedded_mtp(1, 2, 1, "qwen3_next", CacheKind::Lfm2).is_err());
    let lfm = model(ExpertArchitecture::Lfm2, ModelKind::Lfm2);
    assert!(lfm.check_mtp_drafter().is_err());
    assert!(lfm.begin_embedded_mtp(1, 2, 1, "lfm2", CacheKind::Lfm2).is_err());
}

#[test]
fn forward_passes_follow_the_stream_check() {
    let deepseek = model(
        ExpertArchitecture::DeepSeek {
            model_type: "deepseek_v3".into(),
            architecture_fingerprint: "sha256:x".into(),
            num_hidden_layers: 1,
            kv_lora_rank: 8,
            qk_rope_head_dim: 4,
        },
        ModelKind::DeepSeekV3,
    );
    let refused = Err(Error::Parallel("wrong stream".into()));
    assert!(deepseek
        .begin_forward(1, 2, refused, &vec![1, 1], false, CacheKind::DeepSeek)
        .is_err());
    assert!(matches!(
        deepseek.begin_forward(1, 2, Ok(()), &vec![1, 1], false, CacheKind::DeepSeek),
        Ok(ForwardPlan::Resident)
    ));
}

#[test]
fn long_key_lists_are_cut() {
    let few = format_keys(&texts(&["a", "b"]));
    assert!(few.contains("a") && few.contains("b"));
    let many: Vec<String> = (0..60).map(|key| format!("key-{}", key)).collect();
    let text = format_keys(&many);
    assert!(text.contains("key-49"));
    assert!(!text.contains("key-50"));
}

#[test]
fn sharded_dispatch_counts_every_exchange() {
    let mut exchange = RoutingStatistics::default();
    exchange.padding_routes = 2;
    exchange.exchanged_bytes = 10;
    exchange.synchronization_count = 1;
    exchange.exchange_time = 4;
    let timings = ShardedTimings { expert: 5, reduction: 6, total: 20 };
    let statistics = sharded_statistics(8, 3, &vec![exchange, exchange], timings);
    assert_eq!(statistics.total_routes, 8);
    assert_eq!(statistics.received_routes, 3);
    assert_eq!(statistics.padding_routes, 4);
    assert_eq!(statistics.exchanged_bytes, 20);
    assert_eq!(statistics.synchronization_count, 2);
    assert_eq!(statistics.exchange_time, 8);
    assert_eq!(statistics.expert_time, 5);
    assert_eq!(statistics.total_time, 20);
}

#[test]
fn cached_models_report_their_experts() {
    let identity = ExpertIdentity::new(0, 2);
    let unit = OffloadUnit { id: identity.unit_id(), bindings: vec![] };
    let entries = vec![ExpertCatalogEntry::new(identity, unit, 12).unwrap()];
    let catalog = catalog_experts(&entries, &cache_options()).unwrap();
    let cache = ExpertCache::new(catalog, &cache_options(), ());
    let assignment = ExpertAssignment::balanced(4, 2, 1).unwrap();
    let info =
        ExpertParallelInfo::cached(&topology(), ModelKind::Qwen3Next, assignment, 12, 60, vec![]);
    let hybrid = ExpertParallelModel::new(
        topology(),
        info,
        ExpertArchitecture::QwenHybrid { mtp_layers: 1 },
        Some(cache),
    );
    let placement = || ResidencyReport { units: vec![], peak_host_bytes: 0, peak_device_bytes: 0 };
    let report = hybrid.expert_cache_report(placement()).unwrap();
    assert_eq!((report.owned_experts, report.owned_bytes), (1, 12));
    assert_eq!(
        hybrid.begin_mtp_target(1, 2, Ok(()), &vec![1, 4]).unwrap(),
        ExpertPass::Prefill
    );
    assert_eq!(hybrid.begin_mtp_target(1, 2, Ok(()), &vec![1, 1]).unwrap(), ExpertPass::Decode);
    assert!(matches!(
        hybrid.begin_forward(1, 2, Ok(()), &vec![1, 4], false, CacheKind::QwenHybrid),
        Ok(ForwardPlan::Cached(ExpertPass::Prefill))
    ));
    let resident = model(ExpertArchitecture::QwenHybrid { mtp_layers: 1 }, ModelKind::Qwen3Next);
    assert!(resident.begin_mtp_target(1, 2, Ok(()), &vec![1, 4]).is_err());
    assert!(resident.expert_cache_report(placement()).is_none());
}

#[test]
fn owned_routes_are_served_from_a_complete_cache() {
    let assignment = ExpertAssignment::round_robin(4, 2, 1).unwrap();
    let entries = [1, 3]
        .iter()
        .map(|expert| {
            let identity = ExpertIdentity::new(5, *expert);
            let unit = OffloadUnit { id: identity.unit_id(), bindings: vec![] };
            ExpertCatalogEntry::new(identity, unit, 8).unwrap()
        })
        .collect();
    let catalog = catalog_experts(&entries, &cache_options()).unwrap();
    let cache = ExpertCache::new(catalog, &cache_options(), ());
    let hidden = HiddenStates { shape: vec![2, 1], dtype: Dtype::Float32, rows: vec![10, 20] };
    let ids = ExpertIds { shape: vec![2, 2], dtype: Dtype::Int32, values: vec![3, 0, 2, 3] };
    let weights = RouteWeights { shape: vec![2, 2], dtype: Dtype::Float32, values: vec![1, 2, 3, 4] };
    let (routes, _) = compact_local_routes(&hidden, &ids, &weights, &assignment, 0).unwrap();
    let plan = plan_cached_routes(&cache, 5, &routes).unwrap();
    assert_eq!(plan.identities, vec![ExpertIdentity::new(5, 3)]);
    assert_eq!(plan.demand, vec![2]);
    assert_eq!(plan.compact_routes, vec![0, 0]);
    assert!(matches!(
        plan_cached_routes(&cache, 4, &routes),
        Err(ExpertCacheError::UnknownLayer { layer: 4 })
    ));
}
