use safemlx_lm::chat::{
    prepare_format_profile, prepare_format_profile_with_registry, template_signature, CallLimit,
    FormatProfile, NativeToolSupport, ParallelToolCallPolicy, PreparedChat, ToolChoice,
};
use safemlx_lm::dense_stream::{
    panic_message, BackgroundLayerPrefetch, DenseDiskStreamLoadOptions, DenseStreamError,
    Submission,
};
use safemlx_lm::offload::OffloadUnitId;

fn unit(name: &str) -> OffloadUnitId {
    OffloadUnitId { id: name.into() }
}

fn profile(identity: &str, template: &str) -> FormatProfile {
    FormatProfile {
        identity: identity.into(),
        template_signatures: vec![template_signature(template)],
        preserved_structural_token_ids: vec![],
        stop_sequences: vec![],
        tool_runtime_plan: None,
    }
}

#[test]
fn registry_does_not_guess_unknown_templates() {
    let prepared = prepare_format_profile("unknown template");

    assert_eq!(prepared.identity, None);
    assert!(prepared.preserved_structural_token_ids.is_empty());
    assert!(prepared.stop_sequences.is_empty());
    assert!(matches!(
        prepared.native_tool_support,
        NativeToolSupport::Unsupported { ref reason }
            if reason.contains("no registered format profile")
    ));
}

#[test]
fn registry_treats_duplicate_signatures_as_ambiguous() {
    let profiles = vec![profile("first", "same template"), profile("second", "same template")];

    let prepared = prepare_format_profile_with_registry("same template", &profiles);
    assert_eq!(prepared.identity, None);
    assert!(matches!(
        prepared.native_tool_support,
        NativeToolSupport::Unsupported { ref reason }
            if reason.contains("multiple registered format profiles")
    ));
}

#[test]
fn one_matching_profile_is_used() {
    let mut first = profile("first", "one template");
    first.stop_sequences = vec!["</s>".into()];
    first.preserved_structural_token_ids = vec![3, 4];
    let profiles = vec![first, profile("second", "another template")];
    let prepared = prepare_format_profile_with_registry("one template", &profiles);
    assert_eq!(prepared.identity.as_deref(), Some("first"));
    assert_eq!(prepared.stop_sequences, vec!["</s>"]);
    assert_eq!(prepared.preserved_structural_token_ids, vec![3, 4]);
}

#[test]
fn template_signatures_are_sha256_digests() {
    let signature = template_signature("");
    assert_eq!(signature.len(), 32);
    assert_eq!(&signature[..4], &[0xe3, 0xb0, 0xc4, 0x42]);
    assert_ne!(template_signature("a"), template_signature("b"));
}

#[test]
fn tool_defaults_and_limits() {
    assert_eq!(ToolChoice::default(), ToolChoice::Auto);
    assert_eq!(ParallelToolCallPolicy::default(), ParallelToolCallPolicy::Disabled);
    assert!(CallLimit::new(0).is_none());
    assert_eq!(CallLimit::new(3).unwrap().get(), 3);
    let prepared = PreparedChat {
        rendered_prompt: "prompt".into(),
        generation_prompt: "go".into(),
        template_identity: 9,
        format_profile_identity: None,
        native_tool_support: NativeToolSupport::Unsupported { reason: "none".into() },
        eos_token_ids: vec![2],
        preserved_structural_token_ids: vec![],
        profile_stop_sequences: vec!["x".into()],
    };
    assert_eq!(prepared.rendered_prompt(), "prompt");
    assert_eq!(prepared.generation_prompt(), "go");
    assert_eq!(prepared.template_identity(), &9);
    assert_eq!(prepared.format_profile_identity(), None);
    assert_eq!(prepared.eos_token_ids(), &[2]);
    assert_eq!(prepared.profile_stop_sequences(), &["x".to_string()]);
}

#[test]
fn configuration_requires_meaningful_finite_controls() {
    assert!(matches!(
        DenseDiskStreamLoadOptions::new(1, 1, 1, 0, 1),
        Err(DenseStreamError::ZeroDeviceLookahead)
    ));
    assert!(matches!(
        DenseDiskStreamLoadOptions::new(1, 1, 0, 1, 1),
        Err(DenseStreamError::ZeroHostLookahead)
    ));
    assert!(matches!(
        DenseDiskStreamLoadOptions::new(1, 1, 1, 1, 0),
        Err(DenseStreamError::ZeroQueueCapacity)
    ));
    assert!(matches!(
        DenseDiskStreamLoadOptions::new(1, 0, 1, 1, 0),
        Err(DenseStreamError::HostDisabledControls)
    ));
    assert!(DenseDiskStreamLoadOptions::new(1, 0, 0, 1, 0).is_ok());
}

#[test]
fn mutated_public_controls_are_revalidated() {
    let mut options = DenseDiskStreamLoadOptions::default();
    options.background_queue_capacity = 0;
    assert!(matches!(
        options.validate(),
        Err(DenseStreamError::ZeroQueueCapacity)
    ));
}

#[test]
fn duplicate_background_requests_coalesce_and_join_demand() {
    let id = unit("layer.0");
    let mut prefetch = BackgroundLayerPrefetch::new(1).unwrap();
    let generation = match prefetch.submit(&id, false) {
        Submission::Send { generation } => generation,
        Submission::Coalesced => panic!("the first request is sent"),
    };
    assert_eq!(prefetch.submit(&id, false), Submission::Coalesced);
    assert!(prefetch.begin_acquire(&id));
    assert!(prefetch.take_request(generation, &id));
    assert!(prefetch.is_pending(&id));
    prefetch.finish_request(generation, &id, Ok(()));
    assert!(!prefetch.is_pending(&id));
    prefetch.finish_acquire(&id, Some(5)).unwrap();
    let report = prefetch.report();
    assert_eq!(report.submitted, 1);
    assert!(report.coalesced >= 1);
    assert_eq!(report.completed, 1);
    assert_eq!(report.demand_waits, 1);
    assert_eq!(report.demand_wait_duration, 5);
    assert_eq!(report.ready_before_demand, 0);
    assert!(matches!(
        BackgroundLayerPrefetch::new(0),
        Err(DenseStreamError::ZeroQueueCapacity)
    ));
}

#[test]
fn demands_wait_or_find_their_prefetch_ready() {
    let (ready, late) = (unit("layer.0"), unit("layer.1"));
    let mut prefetch = BackgroundLayerPrefetch::new(2).unwrap();
    for id in [&ready, &late] {
        let Submission::Send { generation } = prefetch.submit(id, false) else {
            panic!("the first request is sent");
        };
        assert!(prefetch.take_request(generation, id));
    }
    prefetch.finish_request(0, &ready, Ok(()));
    assert!(!prefetch.begin_acquire(&ready));
    prefetch.finish_acquire(&ready, None).unwrap();
    assert_eq!(prefetch.report().ready_before_demand, 1);
    assert_eq!(prefetch.report().demand_waits, 0);

    assert!(prefetch.begin_acquire(&late));
    prefetch.finish_request(0, &late, Ok(()));
    prefetch.finish_acquire(&late, Some(3)).unwrap();
    assert_eq!(prefetch.report().in_flight_at_demand, 1);
    assert_eq!(prefetch.report().demand_waits, 1);
    assert_eq!(prefetch.report().ready_before_demand, 1);
}

#[test]
fn failed_requests_reach_demand_once() {
    let id = unit("layer.1");
    let mut prefetch = BackgroundLayerPrefetch::new(2).unwrap();
    let Submission::Send { generation } = prefetch.submit(&id, false) else {
        panic!("the first request is sent");
    };
    assert!(prefetch.take_request(generation, &id));
    prefetch.finish_request(generation, &id, Err("disk gone".into()));
    assert!(!prefetch.begin_acquire(&id));
    let error = prefetch.finish_acquire(&id, None).unwrap_err();
    assert!(error.message().contains("disk gone"));
    assert!(error.message().contains("layer.1"));
    assert!(prefetch.finish_acquire(&id, None).is_ok());
    assert_eq!(prefetch.report().failed, 1);
}

#[test]
fn cancellation_settles_queued_requests() {
    let (first, second) = (unit("layer.0"), unit("layer.1"));
    let mut prefetch = BackgroundLayerPrefetch::new(2).unwrap();
    let Submission::Send { generation } = prefetch.submit(&first, false) else {
        panic!("the first request is sent");
    };
    assert!(prefetch.take_request(generation, &first));
    prefetch.submit(&second, false);
    prefetch.record_backpressure(3);
    prefetch.begin_cancel();
    assert!(!prefetch.is_idle());
    assert!(!prefetch.take_request(generation, &second));
    prefetch.finish_request(generation, &first, Ok(()));
    assert!(prefetch.is_idle());
    prefetch.finish_cancel().unwrap();
    let report = prefetch.report();
    assert_eq!(report.backpressure_count, 1);
    assert_eq!(report.backpressure_duration, 3);
    assert!(report.cancelled >= 1);
}

#[test]
fn panics_carry_their_text() {
    assert_eq!(panic_message(Some("boom".into())).contains("boom"), true);
    assert!(!panic_message(None).is_empty());
}
