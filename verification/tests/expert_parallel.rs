use safemlx_lm::array::Dtype;
use safemlx_lm::error::Error;
use safemlx_lm::expert_cache::catalog::{ExpertCatalogEntry, ExpertIdentity};
use safemlx_lm::expert_parallel::assignment::{ExpertAssignment, ExpertAssignmentPolicy};
use safemlx_lm::expert_parallel::banks::{
    expert_bank_prefix, finalize_expert_bank, quantize_qwen3_local_experts, quantized_names,
    BankTensor, ExpertBank,
};
use safemlx_lm::expert_parallel::caches::{CacheKind, CacheReset, ExpertParallelCache};
use safemlx_lm::expert_parallel::exchange::{
    begin_sharded_dispatch, check_receive_counts, check_returned_counts, check_send_blocks,
    finish_exchange, localize_expert_ids, pack_blocks, plan_exchange, split_by_source,
    tokens_of_routes, RowBlock, ShardedRouteBlocks,
};
use safemlx_lm::expert_parallel::loading::{
    begin_load, check_checkpoint_format, choose_loader, rank_owned_experts,
    resolve_model_assignment, select_loader, validate_pure_expert, ExpertLoader,
    ExpertParallelInfo, ParallelTopology,
};
use safemlx_lm::expert_parallel::model::{
    ExpertArchitecture, ExpertParallelModel, ForwardPlan, MtpCapability,
};
use safemlx_lm::expert_parallel::placement::{
    expert_bank_needs_slicing, expert_placement_plan, is_auxiliary_checkpoint_key,
    is_routed_expert_key, localize_split_expert_name, ModelKind, TensorPlacement,
};
use safemlx_lm::expert_parallel::routes::{
    check_bank_output, compact_local_routes, dispatch_replicated, token_contributions, ExpertIds,
    HiddenStates, RouteWeights,
};
use safemlx_lm::expert_parallel::sampling::{
    finished_contribution, synchronized_token, token_contribution,
};
use safemlx_lm::expert_parallel::statistics::{
    profile_expert_parallel_timings, RoutingStatistics, TimingProfiling,
};
use safemlx_lm::offload::OffloadUnit;

fn rank_one_topology() -> ParallelTopology {
    ParallelTopology {
        world_size: 2,
        global_rank: 1,
        tensor_parallel_size: 1,
        pipeline_parallel_size: 1,
        expert_parallel_size: 2,
        expert_parallel_rank: 1,
    }
}

fn hidden(rows: &[[f32; 2]]) -> HiddenStates<[f32; 2]> {
    HiddenStates {
        shape: vec![rows.len() as i32, 2],
        dtype: Dtype::Float32,
        rows: rows.to_vec(),
    }
}

fn ids(values: &[i32]) -> ExpertIds {
    ExpertIds {
        shape: vec![values.len() as i32 / 2, 2],
        dtype: Dtype::Int32,
        values: values.to_vec(),
    }
}

fn weights(values: &[f32]) -> RouteWeights<f32> {
    RouteWeights {
        shape: vec![values.len() as i32 / 2, 2],
        dtype: Dtype::Float32,
        values: values.to_vec(),
    }
}

/// Adds up weighted rows token by token, as the array runtime does on one rank.
fn recombine(
    rows: &[[f32; 2]],
    weights: &[f32],
    token_indices: &Vec<usize>,
    tokens: usize,
) -> Vec<[f32; 2]> {
    token_contributions(token_indices, tokens)
        .iter()
        .map(|routes| {
            let mut sum = [0.0f32; 2];
            for &route in routes {
                for lane in 0..2 {
                    sum[lane] += rows[route][lane] * weights[route];
                }
            }
            sum
        })
        .collect()
}

#[test]
fn timing_profiling_guard_restores_previous_state() {
    let mut profiling = TimingProfiling::new();
    assert!(!profiling.timing_profiling_enabled());
    let outer = profile_expert_parallel_timings(&mut profiling);
    assert!(profiling.timing_profiling_enabled());
    let inner = profile_expert_parallel_timings(&mut profiling);
    assert!(profiling.timing_profiling_enabled());
    inner.restore(&mut profiling);
    assert!(profiling.timing_profiling_enabled());
    outer.restore(&mut profiling);
    assert!(!profiling.timing_profiling_enabled());
}

#[test]
fn timings_are_profiled_while_any_guard_is_alive() {
    let mut profiling = TimingProfiling::new();
    let first = profile_expert_parallel_timings(&mut profiling);
    let second = profile_expert_parallel_timings(&mut profiling);
    first.restore(&mut profiling);
    assert!(profiling.timing_profiling_enabled());
    second.restore(&mut profiling);
    assert!(!profiling.timing_profiling_enabled());
}

#[test]
fn qwen_mtp_weights_are_replicated_while_decoder_experts_are_partitioned() {
    assert!(!is_auxiliary_checkpoint_key(
        ModelKind::Qwen3Next,
        "mtp.fc.weight"
    ));
    assert!(is_auxiliary_checkpoint_key(
        ModelKind::Qwen3Next,
        "model.mtp.fc.weight"
    ));
    assert!(!is_auxiliary_checkpoint_key(
        ModelKind::Qwen35Moe,
        "mtp.fc.weight"
    ));
    assert!(is_auxiliary_checkpoint_key(
        ModelKind::Inkling,
        "model.mtp.fc.weight"
    ));
    assert!(!is_auxiliary_checkpoint_key(
        ModelKind::Inkling,
        "mtp.fc.weight"
    ));
    for kind in [ModelKind::Qwen3Next, ModelKind::Qwen35Moe] {
        assert!(is_routed_expert_key(
            kind,
            "model.layers.0.mlp.experts.1.down_proj.weight"
        ));
        assert!(!is_routed_expert_key(
            kind,
            "mtp.layers.0.mlp.experts.1.down_proj.weight"
        ));
    }
}

#[test]
fn assignment_policies_and_round_trips() {
    let balanced = ExpertAssignment::balanced(7, 3, 1).unwrap();
    assert_eq!(balanced.owners(), &[0, 0, 0, 1, 1, 2, 2]);
    assert_eq!(balanced.local_global_expert_ids(), &[3, 4]);
    assert_eq!(balanced.owner_local_id(4), Some(1));
    assert_eq!(balanced.global_id(1), Some(4));

    let rr = ExpertAssignment::round_robin(7, 3, 1).unwrap();
    assert_eq!(rr.local_global_expert_ids(), &[1, 4]);
    assert_eq!(rr.owner_local_id(4), Some(1));

    let explicit = ExpertAssignment::explicit(vec![1, 0, 1, 0], 2, 0).unwrap();
    assert_eq!(explicit.local_global_expert_ids(), &[1, 3]);
    assert_eq!(explicit.global_id(1), Some(3));
}

#[test]
fn assignment_rejects_invalid_or_empty_ownership() {
    assert!(ExpertAssignment::balanced(0, 2, 0).is_err());
    assert!(ExpertAssignment::balanced(1, 2, 0).is_err());
    assert!(ExpertAssignment::explicit(vec![0, 2], 2, 0).is_err());
    assert!(ExpertAssignment::explicit(vec![0, 0], 2, 0).is_err());
    assert!(ExpertAssignment::explicit_with_empty(vec![0, 0], 2, 1, true).is_ok());
    assert!(resolve_model_assignment(
        Some(ExpertAssignment::balanced(6, 2, 1).unwrap()),
        4,
        &rank_one_topology(),
    )
    .is_err());
    let derived = resolve_model_assignment(None, 4, &rank_one_topology()).unwrap();
    assert_eq!(derived.owners(), &[0, 0, 1, 1]);
}

#[test]
fn already_local_expert_bank_is_not_sliced_again_on_nonzero_rank() {
    let assignment = ExpertAssignment::balanced(4, 2, 1).unwrap();
    assert!(!expert_bank_needs_slicing(2, &assignment).unwrap());
    assert!(expert_bank_needs_slicing(4, &assignment).unwrap());
    assert!(expert_bank_needs_slicing(3, &assignment).is_err());

    let gate_up = BankTensor { rows: 2, row_bytes: 2 * 3 * 4 * 4 };
    let down = BankTensor { rows: 2, row_bytes: 3 * 4 * 4 };
    let bank = ExpertBank {
        num_experts: 2,
        tensors: vec![Some(gate_up), Some(down), None],
    };
    let expected_bytes = 2 * gate_up.row_bytes + 2 * down.row_bytes;
    let (bank, bytes) = finalize_expert_bank(bank, &assignment).unwrap();

    assert_eq!(bytes, expected_bytes);
    assert_eq!(bank.num_experts, 2);
    assert_eq!(bank.tensors[0], Some(gate_up));
    assert_eq!(bank.tensors[1], Some(down));

    let global = ExpertBank {
        num_experts: 4,
        tensors: vec![Some(BankTensor { rows: 4, row_bytes: 10 })],
    };
    let (local, bytes) = finalize_expert_bank(global, &assignment).unwrap();
    assert_eq!(local.num_experts, 2);
    assert_eq!(bytes, 20);
}

#[test]
fn compact_routes_preserves_tokens_slots_and_global_ids() {
    let assignment = ExpertAssignment::balanced(4, 2, 1).unwrap();
    let hidden = hidden(&[[1.0, 2.0], [3.0, 4.0]]);
    let ids = ids(&[0, 2, 1, 3]);
    let weights = weights(&[0.1, 0.9, 0.25, 0.75]);
    let (routes, stats) = compact_local_routes(&hidden, &ids, &weights, &assignment, 0).unwrap();
    assert_eq!(stats.total_routes, 4);
    assert_eq!(stats.local_routes, 2);
    assert_eq!(stats.synchronization_count, 1);
    assert_eq!(routes.global_expert_ids, &[2, 3]);
    assert_eq!(routes.local_expert_ids, &[0, 1]);
    assert_eq!(routes.token_indices, &[0, 1]);
    assert_eq!(routes.slot_indices, &[1, 1]);
    assert_eq!(routes.weights, &[0.9, 0.75]);
    assert_eq!(routes.original_route_indices, &[1, 3]);
    assert_eq!(routes.hidden, &[[1.0, 2.0], [3.0, 4.0]]);
}

#[test]
fn replicated_dispatch_recombines_weights_exactly() {
    let assignment = ExpertAssignment::balanced(3, 1, 0).unwrap();
    let hidden = hidden(&[[2.0, 4.0], [10.0, 20.0]]);
    let ids = ids(&[0, 2, 1, 1]);
    let weights = weights(&[0.25, 0.75, 0.4, 0.6]);
    let (routes, statistics) =
        dispatch_replicated(&hidden, &ids, &weights, &assignment, 0, 1, 0).unwrap();
    assert_eq!(statistics.local_routes, 4);
    check_bank_output(&vec![4, 2], routes.hidden.len()).unwrap();
    let reduced = recombine(&routes.hidden, &routes.weights, &routes.token_indices, 2);
    assert_eq!(reduced, &[[2.0, 4.0], [10.0, 20.0]]);
}

fn exchange<R: Copy>(block: RowBlock<R>, padding: R, item_size: usize) -> (Vec<usize>, RowBlock<R>) {
    let blocks = vec![block];
    let counts = check_send_blocks(&blocks, 1).unwrap();
    let plan = plan_exchange(1, 0, &counts);
    let gathered = pack_blocks(&blocks, plan.max_rows, padding);
    let result = finish_exchange(&blocks, &plan, &gathered, item_size, 0, 0);
    (result.source_counts, result.received)
}

#[test]
fn all_to_all_v_singleton_preserves_payload_and_zero_counts() {
    let payload = RowBlock {
        shape: vec![2, 2],
        dtype: Dtype::Int32,
        rows: vec![[1i32, 2], [3, 4]],
    };
    let (source_counts, received) = exchange(payload, [0, 0], 4);
    assert_eq!(source_counts, vec![2]);
    assert_eq!(received.rows, &[[1, 2], [3, 4]]);

    let empty = RowBlock::<[i32; 2]> {
        shape: vec![0, 2],
        dtype: Dtype::Int32,
        rows: vec![],
    };
    let (source_counts, received) = exchange(empty, [0, 0], 4);
    assert_eq!(source_counts, vec![0]);
    assert_eq!(received.shape, &[0, 2]);
}

#[test]
fn sharded_and_replicated_dispatch_match_on_singleton() {
    let assignment = ExpertAssignment::balanced(2, 1, 0).unwrap();
    let states = hidden(&[[2.0, 4.0], [10.0, 20.0]]);
    let chosen = ids(&[0, 1, 1, 0]);
    let mixed = weights(&[0.25, 0.75, 0.4, 0.6]);
    let (routes, _) = dispatch_replicated(&states, &chosen, &mixed, &assignment, 0, 1, 0).unwrap();
    let replicated = recombine(&routes.hidden, &routes.weights, &routes.token_indices, 2);

    let routed_hidden: Vec<[f32; 2]> = [0, 0, 1, 1].iter().map(|&token| states.rows[token]).collect();
    let blocks = ShardedRouteBlocks {
        hidden: vec![RowBlock { shape: vec![4, 2], dtype: Dtype::Float32, rows: routed_hidden }],
        global_expert_ids: vec![RowBlock {
            shape: vec![4],
            dtype: Dtype::Int32,
            rows: chosen.values.clone(),
        }],
        original_route_indices: vec![RowBlock {
            shape: vec![4],
            dtype: Dtype::Int32,
            rows: vec![0, 1, 2, 3],
        }],
        weights: vec![RowBlock {
            shape: vec![4],
            dtype: Dtype::Float32,
            rows: mixed.values.clone(),
        }],
        top_k: 2,
        source_tokens: 2,
    };
    assert_eq!(begin_sharded_dispatch(&blocks, &assignment, 0, 1).unwrap(), 4);
    let ShardedRouteBlocks { mut hidden, mut global_expert_ids, mut original_route_indices, mut weights, .. } =
        blocks;
    let (hidden_counts, received) = exchange(hidden.remove(0), [0.0; 2], 4);
    let (id_counts, received_ids) = exchange(global_expert_ids.remove(0), 0, 4);
    let (index_counts, indices) = exchange(original_route_indices.remove(0), 0, 4);
    let (weight_counts, received_weights) = exchange(weights.remove(0), 0.0, 4);
    check_receive_counts(&hidden_counts, &id_counts, &index_counts, &weight_counts).unwrap();
    assert_eq!(localize_expert_ids(&received_ids.rows, &assignment), &[0, 1, 1, 0]);
    let outputs = split_by_source(&received.rows, &hidden_counts);
    let returned_indices = split_by_source(&indices.rows, &index_counts);
    check_returned_counts(&vec![outputs[0].len()], &vec![returned_indices[0].len()]).unwrap();
    let tokens = tokens_of_routes(&returned_indices[0], 2);
    let sharded = recombine(&outputs[0], &received_weights.rows, &tokens, 2);
    assert_eq!(replicated, sharded);
}

#[test]
fn qwen3_round_robin_rank_owns_only_its_experts() {
    let config = br#"{"model_type":"qwen3_moe","num_experts":4}"#;
    assert_eq!(select_loader(config).unwrap(), ExpertLoader::Qwen3);
    let assignment = ExpertAssignment::round_robin(4, 2, 1).unwrap();
    assert_eq!(assignment.local_global_expert_ids(), &[1, 3]);
    assert_eq!(assignment.policy(), &ExpertAssignmentPolicy::RoundRobin);
    let entries = (0..4)
        .map(|expert| {
            let identity = ExpertIdentity::new(0, expert);
            let unit = OffloadUnit { id: identity.unit_id(), bindings: vec![] };
            ExpertCatalogEntry::new(identity, unit, 10).unwrap()
        })
        .collect();
    let (owned, bytes) = rank_owned_experts(entries, &assignment).unwrap();
    assert_eq!(bytes, 20);
    let units: Vec<&str> = owned.iter().map(|entry| entry.unit().id.as_str()).collect();
    assert_eq!(
        units,
        vec![
            "expert.layer.00000.global.00001",
            "expert.layer.00000.global.00003"
        ]
    );
}

#[test]
fn deepseek_explicit_rank_keeps_only_its_experts() {
    let config = br#"{"model_type":"deepseek_v3","n_routed_experts":4}"#;
    assert_eq!(select_loader(config).unwrap(), ExpertLoader::DeepSeek);
    let assignment = ExpertAssignment::explicit(vec![1, 0, 0, 1], 2, 1).unwrap();
    assert_eq!(assignment.local_global_expert_ids(), &[0, 3]);
    assert_eq!(
        assignment.policy(),
        &ExpertAssignmentPolicy::Explicit(vec![1, 0, 0, 1])
    );
    let keys: Vec<String> = (0..4)
        .map(|expert| format!("model.layers.0.mlp.experts.{}.gate_proj.weight", expert))
        .chain(["model.embed_tokens.weight".to_string()])
        .collect();
    let (plan, split) = expert_placement_plan(&keys, &assignment);
    assert!(split);
    let kept: Vec<&str> = plan
        .iter()
        .filter(|entry| entry.placement == TensorPlacement::Local)
        .map(|entry| entry.key.as_str())
        .collect();
    assert!(kept.contains(&"model.layers.0.mlp.experts.0.gate_proj.weight"));
    assert!(kept.contains(&"model.layers.0.mlp.experts.3.gate_proj.weight"));
    assert!(!kept.contains(&"model.layers.0.mlp.experts.1.gate_proj.weight"));
    assert_eq!(
        localize_split_expert_name("model.layers.0.mlp.experts.3.gate_proj.weight", &assignment),
        Some("model.layers.0.mlp.experts.1.gate_proj.weight".to_string())
    );
}

#[test]
fn loader_follows_the_declared_model_type() {
    assert!(select_loader(b"{not-json").is_err());
    assert!(select_loader(br#"{"hidden_size":8}"#).is_err());
    assert!(matches!(
        select_loader(br#"{"model_type":"llama"}"#),
        Err(Error::UnsupportedArchitecture(_))
    ));
    assert_eq!(
        choose_loader(Some("gpt_oss")).unwrap(),
        ExpertLoader::Additional(ModelKind::GptOss)
    );
    assert!(check_checkpoint_format(true).is_err());
    assert!(check_checkpoint_format(false).is_ok());
    assert!(begin_load(None).is_err());
    assert!(validate_pure_expert(&rank_one_topology()).is_ok());
    let mut mixed = rank_one_topology();
    mixed.tensor_parallel_size = 2;
    assert!(validate_pure_expert(&mixed).is_err());
}

#[test]
fn every_route_runs_on_exactly_one_rank() {
    let states = hidden(&[[1.0, 0.0], [2.0, 0.0], [3.0, 0.0]]);
    let chosen = ids(&[0, 4, 2, 1, 3, 3]);
    let mixed = weights(&[0.5; 6]);
    let mut seen = vec![0; 6];
    for rank in 0..2 {
        let assignment = ExpertAssignment::round_robin(5, 2, rank).unwrap();
        let (routes, _) =
            compact_local_routes(&states, &chosen, &mixed, &assignment, 0).unwrap();
        for route in routes.original_route_indices {
            seen[route] += 1;
        }
    }
    assert_eq!(seen, vec![1; 6]);
}

#[test]
fn malformed_routes_are_refused() {
    let assignment = ExpertAssignment::balanced(4, 2, 1).unwrap();
    let states = hidden(&[[1.0, 2.0], [3.0, 4.0]]);
    let chosen = ids(&[0, 2, 1, 3]);
    let mixed = weights(&[0.1, 0.9, 0.25, 0.75]);
    assert!(dispatch_replicated(&states, &chosen, &mixed, &assignment, 0, 2, 0).is_err());
    let unknown = ids(&[0, 2, 1, 4]);
    assert!(compact_local_routes(&states, &unknown, &mixed, &assignment, 0).is_err());
    let negative = ids(&[0, -2, 1, 3]);
    assert!(compact_local_routes(&states, &negative, &mixed, &assignment, 0).is_err());
    let short = hidden(&[[1.0, 2.0]]);
    assert!(compact_local_routes(&short, &chosen, &mixed, &assignment, 0).is_err());
}

#[test]
fn exchange_delivers_rows_in_source_order() {
    // Two ranks; row (source, destination) counts are 1, 2 and 0, 1.
    let counts = vec![1, 2, 0, 1];
    let plan = plan_exchange(2, 1, &counts);
    assert_eq!(plan.max_rows, 2);
    assert_eq!(plan.source_counts, vec![2, 1]);
    assert_eq!(plan.total_rows, 4);
    let block = |rows: Vec<i32>| RowBlock { shape: vec![rows.len() as i32], dtype: Dtype::Int32, rows };
    let mut gathered = pack_blocks(&vec![block(vec![10]), block(vec![20, 21])], 2, 0);
    gathered.extend(pack_blocks(&vec![block(vec![]), block(vec![30])], 2, 0));
    assert_eq!(gathered, vec![10, 0, 20, 21, 0, 0, 30, 0]);
    assert_eq!(plan.receive(&gathered), vec![20, 21, 30]);
}

#[test]
fn send_blocks_must_match_the_group() {
    let block = |rows: Vec<i32>| RowBlock { shape: vec![rows.len() as i32], dtype: Dtype::Int32, rows };
    assert!(check_send_blocks(&vec![block(vec![1])], 2).is_err());
    let other = RowBlock { shape: vec![1], dtype: Dtype::Uint32, rows: vec![1] };
    assert!(check_send_blocks(&vec![block(vec![1]), other], 2).is_err());
    let scalar = RowBlock { shape: vec![], dtype: Dtype::Int32, rows: vec![1] };
    assert!(check_send_blocks(&vec![scalar], 1).is_err());
    assert_eq!(check_send_blocks(&vec![block(vec![1, 2]), block(vec![])], 2).unwrap(), vec![2, 0]);
    assert!(check_receive_counts(&vec![1], &vec![2], &vec![1], &vec![1]).is_err());
    assert!(check_returned_counts(&vec![1], &vec![2]).is_err());
}

#[test]
fn statistics_add_up_in_either_order() {
    let mut first = RoutingStatistics::default();
    first.total_routes = 4;
    first.expert_time = 7;
    let mut second = RoutingStatistics::default();
    second.total_routes = 2;
    second.exchanged_bytes = 9;
    let mut left = first;
    left.accumulate(&second);
    let mut right = second;
    right.accumulate(&first);
    assert_eq!(left, right);
    assert_eq!(left.total_routes, 6);
    assert_eq!(left.exchanged_bytes, 9);
    assert_eq!(left.expert_time, 7);
}

#[test]
fn the_sampling_rank_decides_for_all() {
    let shares: Vec<Vec<u32>> = (0..3)
        .map(|rank| token_contribution(vec![5 + rank as u32, 9], rank, 1))
        .collect();
    assert_eq!(shares[0], vec![0, 0]);
    let sum: Vec<u32> = (0..2).map(|entry| shares.iter().map(|share| share[entry]).sum()).collect();
    let stops: i32 = (0..3).map(|rank| finished_contribution(true, rank, 1)).sum();
    let agreed = synchronized_token(sum, stops);
    assert_eq!(agreed.token, vec![6, 9]);
    assert!(agreed.finished);
    assert!(!synchronized_token(vec![1], 0).finished);
}

fn deepseek_model() -> ExpertParallelModel<()> {
    let topology = rank_one_topology();
    let assignment = ExpertAssignment::balanced(4, 2, 1).unwrap();
    let info = ExpertParallelInfo::resident(&topology, ModelKind::DeepSeekV3, assignment, 100, 40, vec![]);
    let architecture = ExpertArchitecture::DeepSeek {
        model_type: "deepseek_v3".into(),
        architecture_fingerprint: "sha256:x".into(),
        num_hidden_layers: 2,
        kv_lora_rank: 8,
        qk_rope_head_dim: 4,
    };
    ExpertParallelModel::new(topology, info, architecture, None)
}

#[test]
fn a_model_states_what_its_rank_holds() {
    let mut model = deepseek_model();
    assert_eq!(model.info().routed_expert_bytes, 40);
    assert_eq!(model.info().replicated_parameter_bytes, 60);
    assert_eq!(model.mtp_capability(), MtpCapability::Unavailable);
    assert_eq!(model.mtp_layer_count(), 0);
    assert_eq!(model.prompt_cache_rank_directory("/tmp/p"), "/tmp/p/rank-00001");
    let identity = model.prompt_cache_model_identity().unwrap();
    assert_eq!(identity.layer_layouts.len(), 2);
    assert_eq!(identity.topology.expert_parallel, Some((2, 1)));
    assert!(model.validate_group(1, 2).is_ok());
    assert!(model.validate_group(0, 2).is_err());
    assert!(matches!(
        model.begin_forward(1, 2, Ok(()), &vec![1, 3], false, CacheKind::DeepSeek),
        Ok(ForwardPlan::Resident)
    ));
    assert!(model
        .begin_forward(1, 2, Ok(()), &vec![1, 3], false, CacheKind::Qwen3)
        .is_err());
    let mut statistics = RoutingStatistics::default();
    statistics.total_routes = 3;
    model.finish_forward(statistics, 11);
    model.finish_forward(statistics, 11);
    assert_eq!(model.latest_routing_statistics().total_routes, 3);
    assert_eq!(model.latest_routing_statistics().model_time, 11);
    assert_eq!(model.cumulative_routing_statistics().total_routes, 6);
    assert_eq!(model.cumulative_routing_statistics().model_time, 22);
    assert!(model.end_forward(Err(Error::Parallel("lost".into())), 5).is_err());
    assert_eq!(model.latest_routing_statistics().model_time, 11);
    assert_eq!(model.cumulative_routing_statistics().model_time, 22);
    model.end_forward(Ok(statistics), 5).unwrap();
    assert_eq!(model.latest_routing_statistics().model_time, 5);
    assert_eq!(model.cumulative_routing_statistics().total_routes, 9);
    assert!(model
        .begin_forward(1, 2, Ok(()), &vec![3], false, CacheKind::DeepSeek)
        .is_err());
    assert!(model
        .begin_forward(0, 2, Ok(()), &vec![1, 3], false, CacheKind::DeepSeek)
        .is_err());
    assert_eq!(model.begin_sampling(1, 2, 1).unwrap(), true);
    assert_eq!(model.begin_sampling(1, 2, 0).unwrap(), false);
    assert!(model.begin_sampling(1, 2, 2).is_err());
}

#[test]
fn model_caches_fit_the_architecture() {
    let model = deepseek_model();
    let mut cache: ExpertParallelCache<u8, u32> = model.new_cache(7);
    assert_eq!(cache.kind(), CacheKind::DeepSeek);
    assert_eq!(cache.reset(), CacheReset::ResetArchitecture);
    assert_eq!(cache.offset(5), 5);
}

#[test]
fn qwen3_banks_are_quantized_as_a_whole() {
    let prefix = expert_bank_prefix(ModelKind::Qwen3, 0);
    assert!(prefix.starts_with("model.layers.0."));
    assert_eq!(quantized_names("a.weight", false), vec!["a.weight", "a.weight_scales"]);
    assert!(quantize_qwen3_local_experts(&vec![], 1).is_err());
}
