use safemlx_lm::array::Dtype;
use safemlx_lm::cache::StateArray;
use safemlx_lm::deepseek_v3::{expert_destination, DeepSeekV3LayerwiseAdapter};
use safemlx_lm::dense_stream::DenseDiskStreamLoadOptions;
use safemlx_lm::expert_parallel::loading::WeightResidency;
use safemlx_lm::gemma4::adapter::{
    choose_gguf_execution, normalized_checkpoint_keys, normalized_name, BoundedExecution,
    Gemma4Config, Gemma4Group, Gemma4Layer, Gemma4LayerwiseAdapter, GroupFinish,
    MaskChoice, PerLayerModules,
};
use safemlx_lm::gemma4::prefill::{
    assemble_tokens, begin_decode, begin_prefill, decode_offset, finish_assembly, first_hidden,
    gather_ready_tokens, needs_causal_mask, InputPart, FirstHidden, InputPayload, Modality, PreparedPart,
};
use safemlx_lm::gemma4::speculation::{
    check_draft_embedding, commit_verification, draft_offset, last_prompt_row, max_draft_tokens, state_at,
    state_on_draft_stream, take_draft_hidden, Gemma4TargetState, LayerType, SharedStates,
    StepOutput,
};
use safemlx_lm::layerwise::{CheckpointKey, ModuleParameter, WeightRecipe};

fn deepseek() -> DeepSeekV3LayerwiseAdapter {
    DeepSeekV3LayerwiseAdapter {
        num_hidden_layers: 2,
        n_routed_experts: 2,
        num_nextn_predict_layers: 1,
    }
}

fn key(name: &str) -> CheckpointKey {
    CheckpointKey { raw: name.into(), canonical: name.into() }
}

fn parameter(name: &str) -> ModuleParameter {
    ModuleParameter { name: name.into(), canonical: name.into(), dtype: Dtype::Float32 }
}

fn gemma(vision: Option<i32>, audio: Option<i32>) -> Gemma4LayerwiseAdapter {
    let config = Gemma4Config {
        hidden_size: 16,
        num_hidden_layers: 2,
        pad_token_id: 0,
        moe_intermediate_size: None,
        hidden_size_per_layer_input: 0,
        tie_word_embeddings: true,
        vision_layers: vision,
        audio_layers: audio,
        image_token_id: Some(20),
        video_token_id: Some(21),
        audio_token_id: Some(22),
    };
    let per_layer = PerLayerModules { embedding: false, projection: false, norm: false };
    Gemma4LayerwiseAdapter::new(config, per_layer)
}

#[test]
fn deepseek_experts_are_stacked_from_split_checkpoints() {
    assert_eq!(
        expert_destination("mlp.experts.gate_proj"),
        Some(("gate_proj".to_string(), "weight".to_string()))
    );
    let keys: Vec<CheckpointKey> = (0..2)
        .map(|expert| key(&format!("model.layers.1.mlp.experts.{}.gate_proj.weight", expert)))
        .collect();
    let recipes = deepseek()
        .recipes_for_layer(1, &vec![parameter("mlp.experts.gate_proj")], &keys)
        .unwrap();
    assert_eq!(recipes.len(), 1);
    assert_eq!(
        recipes[0].recipe,
        WeightRecipe::Stack {
            axis: 0,
            keys: vec![
                "model.layers.1.mlp.experts.0.gate_proj.weight".into(),
                "model.layers.1.mlp.experts.1.gate_proj.weight".into(),
            ],
        }
    );
    let incomplete = vec![key("model.layers.1.mlp.experts.0.gate_proj.weight")];
    assert!(deepseek()
        .recipes_for_layer(1, &vec![parameter("mlp.experts.gate_proj")], &incomplete)
        .is_err());
}

#[test]
fn deepseek_layers_have_names_and_caches() {
    let adapter = deepseek();
    assert_eq!(adapter.layer_count(0).unwrap(), 2);
    assert!(adapter.layer_count(1).is_err());
    assert_eq!(adapter.execution_group_count(), 1);
    assert_eq!(adapter.layer_checkpoint_prefix(1), "model.layers.1");
    assert_ne!(adapter.layer_unit_name(0), adapter.layer_unit_name(1));
    assert!(adapter.ignores_checkpoint_key("model.layers.2.mlp.weight"));
    assert!(!adapter.ignores_checkpoint_key("model.layers.1.mlp.weight"));
    let mut cache = adapter.new_cache::<f32>();
    assert_eq!(cache.len(), 2);
    assert!(adapter.validate_cache(&mut cache).is_ok());
    cache.truncate(1);
    assert!(adapter.validate_cache(&mut cache).is_err());
    let mut empty = Vec::new();
    assert!(adapter.validate_cache::<f32>(&mut empty).is_ok());
    assert_eq!(empty.len(), 2);
    assert!(adapter.needs_mask(2, 1));
    assert!(!adapter.needs_mask(2, 0));
    assert!(!adapter.needs_mask(1, 4));
    assert_eq!(adapter.static_units().len(), 3);
    assert!(adapter.populate_static(2).is_err());
    assert!(adapter.populate_static(3).is_ok());
}

#[test]
fn gemma4_text_runs_last_and_media_only_when_present() {
    let adapter = gemma(Some(3), Some(1));
    assert_eq!(adapter.execution_group_count(), 3);
    assert_eq!(adapter.execution_group(0).unwrap(), Gemma4Group::VisionEncoder);
    assert_eq!(adapter.execution_group(1).unwrap(), Gemma4Group::AudioEncoder);
    assert_eq!(adapter.execution_group(2).unwrap(), Gemma4Group::TextDecoder);
    assert!(adapter.execution_group(3).is_err());
    assert!(adapter.layer_unit_name(0, 0).starts_with("gemma4.vision."));
    assert!(adapter.layer_unit_name(1, 0).starts_with("gemma4.audio."));
    assert_ne!(adapter.layer_unit_name(0, 1), adapter.layer_unit_name(2, 1));
    assert_eq!(adapter.layer_count(0).unwrap(), 3);
    assert_eq!(adapter.layer_count(2).unwrap(), 2);
    assert!(!adapter.should_execute_group(0, 0, 4));
    assert!(adapter.should_execute_group(1, 0, 4));
    assert!(adapter.should_execute_group(2, 0, 0));
    let text: Gemma4Layer<u8, u8, u8> = Gemma4Layer::Text(0);
    assert!(adapter.check_layer(0, &text).is_err());
    assert_eq!(adapter.check_layer(2, &text).unwrap(), Gemma4Group::TextDecoder);
    assert!(!adapter.retains_cache(0));
    assert!(adapter.retains_cache(2));
    assert_eq!(adapter.finish_execution_group(1, true), GroupFinish::Assemble);
    assert_eq!(adapter.finish_execution_group(0, true), GroupFinish::Keep);
    assert_eq!(adapter.finish_execution_group(2, false), GroupFinish::RetainDraft);
    let plain = gemma(None, None);
    assert_eq!(plain.execution_group_count(), 1);
    assert_eq!(plain.layer_count(0).unwrap(), 2);
    assert!(plain.validate_cache(2).is_ok());
    assert!(plain.validate_cache(1).is_err());
    assert!(plain.validate_cache(0).is_ok());
}

#[test]
fn gemma4_masks_follow_the_layer_type() {
    let adapter = gemma(None, None);
    assert_eq!(adapter.choose_mask(true, true, true), MaskChoice::Sliding);
    assert_eq!(adapter.choose_mask(false, true, true), MaskChoice::Full);
    assert_eq!(adapter.choose_mask(false, true, false), MaskChoice::Unmasked);
    assert!(needs_causal_mask(2));
    assert!(!needs_causal_mask(1));
    assert_eq!(decode_offset(&vec![None, Some(4), Some(9)]), 9);
    assert_eq!(decode_offset(&vec![]), 0);
    assert_eq!(normalized_name("other.w"), "other.w");
}

#[test]
fn gemma4_parts_become_numbered_jobs() {
    let adapter = gemma(Some(1), Some(1));
    let part = |modality: Modality, payload: InputPayload| InputPart {
        modality,
        payload,
        has_patch_positions: true,
        has_audio_mask: true,
    };
    let parts = vec![
        part(Modality::Text, InputPayload::TokenIds(vec![1, 2])),
        part(Modality::Image, InputPayload::Tensor),
        part(Modality::Audio, InputPayload::Tensor),
        part(Modality::Image, InputPayload::Tensor),
    ];
    let plan = adapter.plan_prefill(&parts).unwrap();
    assert_eq!((plan.vision_jobs, plan.audio_jobs), (2, 1));
    assert!(plan.needs_assembly);
    assert!(matches!(plan.parts[1], PreparedPart::Vision { token_id: 20, job: 0 }));
    assert!(matches!(plan.parts[2], PreparedPart::Audio { token_id: 22, job: 0 }));
    assert!(matches!(plan.parts[3], PreparedPart::Vision { token_id: 20, job: 1 }));
    let tokens = assemble_tokens(&plan.parts, &vec![(1, 2), (1, 1)], &vec![1]);
    assert_eq!(tokens, vec![1, 2, 20, 20, 22, 20]);
    assert_eq!(gather_ready_tokens(&plan.parts), vec![1, 2]);
    assert_eq!(adapter.media_safe_per_layer_ids(&vec![1, 20, 22]), vec![1, 0, 0]);

    let text_only = gemma(None, None);
    assert!(text_only.plan_prefill(&parts).is_err());
}

#[test]
fn gemma4_caches_remember_their_tokens() {
    let part = |modality: Modality, payload: InputPayload| InputPart {
        modality,
        payload,
        has_patch_positions: true,
        has_audio_mask: true,
    };
    let embedded = || InputPayload::Embeddings { tokens: 2, mismatch: None };
    let parts = || {
        vec![
            part(Modality::Text, InputPayload::TokenIds(vec![1, 2])),
            part(Modality::Image, embedded()),
            part(Modality::Text, InputPayload::TokenIds(vec![3])),
        ]
    };
    let text_only = gemma(None, None);
    let mut history = vec![90, 91];
    let (plan, start) = text_only.begin_prompt(&parts(), &mut history).unwrap();
    assert!(!plan.needs_assembly);
    assert_eq!((start.position_offset, start.clears_keys, start.masked), (0, true, true));
    assert_eq!(history, vec![1, 2, 20, 20, 3]);

    let step = begin_decode(&mut history, &vec![4], &vec![Some(5), None]);
    assert_eq!((step.position_offset, step.masked), (5, false));
    assert_eq!(history, vec![1, 2, 20, 20, 3, 4]);
    let step = begin_decode(&mut history, &vec![5, 6], &vec![]);
    assert_eq!((step.position_offset, step.masked), (0, true));
    assert_eq!(history, vec![1, 2, 20, 20, 3, 4, 5, 6]);

    let towers = gemma(Some(1), Some(1));
    let (plan, start) = towers.begin_prompt(&parts(), &mut history).unwrap();
    assert!(plan.needs_assembly && !start.masked && start.clears_keys);
    assert!(history.is_empty());
    finish_assembly(&plan.parts, &vec![], &vec![], &mut history);
    assert_eq!(history, vec![1, 2, 20, 20, 3]);

    let one = text_only
        .plan_prefill(&vec![part(Modality::Text, InputPayload::TokenIds(vec![8]))])
        .unwrap();
    assert!(!begin_prefill(&one, &mut history).masked);
    assert_eq!(history, vec![8]);

    let refused = vec![part(Modality::Text, InputPayload::Tensor)];
    assert!(text_only.begin_prompt(&refused, &mut history).is_err());
    assert!(history.is_empty());
}

#[test]
fn caches_of_impossible_models_are_refused() {
    let broken = DeepSeekV3LayerwiseAdapter { num_hidden_layers: -1, ..deepseek() };
    let mut cache = vec![safemlx_lm::cache::CompressedLatentCache::<u8>::new()];
    assert!(broken.validate_cache(&mut cache).is_err());
    assert_eq!(cache.len(), 1);
}

#[test]
fn target_state_copies_from_gpu_to_cpu_draft_stream() {
    let row = |values: [f32; 2]| StateArray { rows: vec![values], zero: [0.0; 2] };
    let state = Gemma4TargetState {
        hidden: [1.0f32, 2.0],
        shared: vec![SharedStates {
            kind: LayerType::FullAttention,
            keys: row([3.0, 4.0]),
            values: row([5.0, 6.0]),
        }],
        cache_len: 9,
    };
    let copied = state_on_draft_stream(&state);

    assert_eq!(copied.cache_len, 9);
    assert_eq!(copied.hidden, [1.0, 2.0]);
    assert_eq!(copied.shared[0].kind, LayerType::FullAttention);
    assert_eq!(copied.shared[0].keys.rows, vec![[3.0, 4.0]]);
    assert_eq!(copied.shared[0].values.rows, vec![[5.0, 6.0]]);
}

#[test]
fn verified_inputs_stay_in_the_cache() {
    let kept = commit_verification(2, 4, 10, 14).unwrap();
    assert_eq!(kept.truncate_to, Some(12));
    assert_eq!(kept.cache_len, 12);
    assert_eq!(kept.row, 1);
    let all = commit_verification(4, 4, 10, 14).unwrap();
    assert_eq!(all.truncate_to, None);
    assert_eq!(all.cache_len, 14);
    assert_eq!(commit_verification(0, 4, 10, 14).unwrap().cache_len, 10);
    assert!(commit_verification(2, 4, 10, 13).is_err());
    assert!(commit_verification(1, 4, usize::MAX, 3).is_err());
    assert!(commit_verification(5, 4, 10, 14).is_err());
    assert_eq!(max_draft_tokens(4), 3);
    assert_eq!(max_draft_tokens(0), 0);
    assert_eq!(last_prompt_row(3).unwrap(), 2);
    assert!(last_prompt_row(0).is_err());
    assert_eq!(draft_offset(9).unwrap(), 9);
    assert!(draft_offset(usize::MAX).is_err());
    assert_eq!(take_draft_hidden(Some(3)).unwrap(), 3);
    assert!(take_draft_hidden::<u8>(None).is_err());
}

#[test]
fn target_states_are_taken_row_by_row() {
    let output = StepOutput {
        hidden: StateArray { rows: vec![1.0f32, 2.0, 3.0], zero: 0.0 },
        shared: vec![SharedStates {
            kind: LayerType::SlidingAttention,
            keys: StateArray { rows: vec![7.0, 8.0], zero: 0.0 },
            values: StateArray { rows: vec![9.0, 10.0], zero: 0.0 },
        }],
    };
    let state = state_at(&output, 1, 2).unwrap();
    assert_eq!(state.hidden, 2.0);
    assert_eq!(state.cache_len, 2);
    assert_eq!(state.shared.len(), 1);
}

#[test]
fn gemma4_checkpoints_are_renamed_and_split() {
    assert_eq!(
        normalized_name("language_model.model.layers.0.w"),
        "model.language_model.layers.0.w"
    );
    assert_eq!(normalized_name("vision_tower.w"), "model.vision_tower.w");
    assert_eq!(normalized_name("embed_audio.w"), "model.embed_audio.w");
    let keys = normalized_checkpoint_keys(&vec![key("audio_tower.w")]);
    assert_eq!(keys[0].raw, "audio_tower.w");
    assert_eq!(keys[0].canonical, "model.audio_tower.w");

    let mut adapter = gemma(None, None);
    adapter.config.moe_intermediate_size = Some(3);
    let prefix = "model.language_model.layers.0";
    let stored = vec![
        key("model.language_model.layers.0.experts.switch_glu.gate_up_proj.weight"),
        key("language_model.model.layers.0.mlp.weight"),
    ];
    let wanted = vec![ModuleParameter {
        name: "mlp.weight".into(),
        canonical: "model.language_model.layers.0.mlp.weight".into(),
        dtype: Dtype::Bfloat16,
    }];
    let recipes = adapter.recipes_for(prefix, &wanted, &stored);
    assert_eq!(recipes.len(), 3);
    assert_eq!(recipes[0].name, "experts.switch_glu.gate_proj.weight");
    assert_eq!(
        recipes[0].recipe,
        WeightRecipe::SelectRange { key: stored[0].raw.clone(), axis: 1, start: 0, end: 3 }
    );
    assert_eq!(
        recipes[1].recipe,
        WeightRecipe::SelectRange { key: stored[0].raw.clone(), axis: 1, start: 3, end: 6 }
    );
    assert_eq!(
        recipes[2].recipe,
        WeightRecipe::Cast { key: stored[1].raw.clone(), dtype: Dtype::Bfloat16 }
    );
}

#[test]
fn gemma4_per_layer_inputs_need_all_modules() {
    let mut adapter = gemma(None, None);
    assert_eq!(adapter.has_per_layer_inputs().unwrap(), false);
    adapter.per_layer.embedding = true;
    assert!(adapter.has_per_layer_inputs().is_err());
    adapter.per_layer.projection = true;
    adapter.per_layer.norm = true;
    assert_eq!(adapter.has_per_layer_inputs().unwrap(), true);
    adapter.config.hidden_size_per_layer_input = 5;
    assert_eq!(adapter.per_layer_shape(1, 7), [1, 7, 2, 5]);
}

#[test]
fn gemma4_quantized_files_run_bounded() {
    let streamed = DenseDiskStreamLoadOptions::default();
    assert_eq!(
        choose_gguf_execution(&WeightResidency::DenseDiskStream(streamed)).unwrap(),
        BoundedExecution::DenseDiskStream(streamed)
    );
    assert!(choose_gguf_execution(&WeightResidency::FullyResident).is_err());
}

#[test]
fn gemma4_starts_with_the_first_encoder_that_has_work() {
    let adapter = gemma(Some(1), Some(1));
    let part = |modality: Modality, payload: InputPayload| InputPart {
        modality,
        payload,
        has_patch_positions: true,
        has_audio_mask: true,
    };
    let text = || part(Modality::Text, InputPayload::TokenIds(vec![1]));
    let plan = adapter.plan_prefill(&vec![text(), part(Modality::Audio, InputPayload::Tensor)]).unwrap();
    assert_eq!(first_hidden(&plan), FirstHidden::Audio);
    let plan = adapter
        .plan_prefill(&vec![
            part(Modality::Audio, InputPayload::Tensor),
            part(Modality::Video, InputPayload::Tensor),
        ])
        .unwrap();
    assert_eq!(first_hidden(&plan), FirstHidden::Vision);
    let plan = adapter.plan_prefill(&vec![text()]).unwrap();
    assert_eq!(first_hidden(&plan), FirstHidden::Ready { part: 0 });
    let bare = InputPart {
        modality: Modality::Audio,
        payload: InputPayload::Tensor,
        has_patch_positions: false,
        has_audio_mask: false,
    };
    assert!(adapter.plan_part(&bare, 0, 0).is_err());
    let mismatched = part(
        Modality::Image,
        InputPayload::Embeddings { tokens: 2, mismatch: Some("wrong width".into()) },
    );
    assert!(adapter.plan_part(&mismatched, 0, 0).is_err());
    let embedded = part(Modality::Image, InputPayload::Embeddings { tokens: 2, mismatch: None });
    assert!(matches!(
        adapter.plan_part(&embedded, 0, 0),
        Ok(PreparedPart::Ready { tokens }) if tokens == vec![20, 20]
    ));
    assert!(check_draft_embedding(true).is_ok());
    assert!(check_draft_embedding(false).is_err());
}
